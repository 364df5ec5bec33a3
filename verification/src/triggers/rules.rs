//! The triggered abilities of a spell that is being cast, and those of the game itself: the
//! monarch, the initiative, speed, rad counters and the Ring.

use crate::ability::{
    count_kind, AbilityCondition, AbilityDefinition, AbilityKind, DelayedTiming, Effect,
    PlayerFilter, QuantityExpr, ResolvedAbility, SpellContext, TargetFilter, TriggerCondition,
    TypeFilter, TypedFilter,
};
use crate::casting::{effective_keywords, effective_spell_keyword_count, number_of_kind};
use crate::effects::ring::{bearer_of, find_ring_level, ring_bearer_for, ring_level_of};
use crate::events::GameEvent;
use crate::ids::{DungeonId, KeywordKind, ObjectId, Phase, PlayerId, TargetRef};
use crate::list::{list_of, List};
use crate::object::capped;
use crate::speed::{
    effective_speed, has_max_speed, mark_speed_trigger_used, speed_key_source, speed_of,
    speed_trigger_available, speed_trigger_free, speed_trigger_spent, MAX_SPEED,
};
use crate::state::{next_number, Game, GameState, StackEntry};
use crate::targeting::{build_resolved_from_def, resolved_from};
use crate::text::Text;
use crate::triggers::collect::{single_context, PendingTriggerContext};
use crate::triggers::keywords::{build_draw_one, build_unprinted, draw_one, unprinted};
use crate::triggers::PendingTrigger;
use std::rc::Rc;
use vstd::prelude::*;

verus! {

/// The timestamp that is handed out after `n` others.
pub open spec fn stamp_after(stamp: u64, n: nat) -> u64
    decreases n,
{
    if n == 0 {
        stamp
    } else {
        next_number(stamp_after(stamp, (n - 1) as nat))
    }
}

/// A trigger with a timestamp of its own, of which the low 32 bits count.
pub open spec fn stamped(template: PendingTrigger, stamp: u64) -> PendingTriggerContext {
    single_context(PendingTrigger { timestamp: stamp as u32, ..template })
}

/// `n` copies of a trigger, each with the next timestamp.
pub open spec fn stamped_copies(template: PendingTrigger, stamp: u64, n: nat) -> Seq<
    PendingTriggerContext,
>
    decreases n,
{
    if n == 0 {
        seq![]
    } else {
        stamped_copies(template, stamp, (n - 1) as nat).push(
            stamped(template, stamp_after(stamp, (n - 1) as nat)),
        )
    }
}

fn push_stamped(
    state: &mut GameState,
    template: &PendingTrigger,
    n: u32,
    pending: &mut Vec<PendingTriggerContext>,
)
    ensures
        final(state)@ == (Game {
            timestamp_counter: stamp_after(old(state)@.timestamp_counter, n as nat),
            ..old(state)@
        }),
        final(pending)@ == old(pending)@ + stamped_copies(
            *template,
            old(state)@.timestamp_counter,
            n as nat,
        ),
{
    let ghost first = state@.timestamp_counter;
    let mut i: u32 = 0;
    assert(pending@ =~= old(pending)@ + stamped_copies(*template, first, 0));
    while i < n
        invariant
            i <= n,
            first == old(state)@.timestamp_counter,
            state@ == (Game { timestamp_counter: stamp_after(first, i as nat), ..old(state)@ }),
            pending@ == old(pending)@ + stamped_copies(*template, first, i as nat),
        decreases n - i,
    {
        let stamp: u64 = state.next_timestamp();
        let mut trigger = template.clone();
        trigger.timestamp = #[verifier::truncate]
        (stamp as u32);
        pending.push(PendingTriggerContext::single(trigger));
        i = i + 1;
        assert(pending@ =~= old(pending)@ + stamped_copies(*template, first, i as nat));
    }
}

/// How many spells the first `n` casters have cast this turn.
pub open spec fn casts_this_turn(g: Game, n: nat) -> nat
    decreases n,
{
    if n == 0 {
        0
    } else {
        casts_this_turn(g, (n - 1) as nat) + g.spells_cast_this_turn_by_player[n - 1].spells@.len()
    }
}

/// How many spells were cast this turn before the one that is being cast.
pub open spec fn storm_copies(g: Game) -> i32 {
    let casts = casts_this_turn(g, g.spells_cast_this_turn_by_player.len());
    if casts == 0 {
        0
    } else if casts - 1 <= i32::MAX {
        (casts - 1) as i32
    } else {
        i32::MAX
    }
}

pub fn storm_copy_count_before_cast(state: &GameState) -> (r: i32)
    ensures
        r == storm_copies(state@),
{
    let mut casts: u32 = 0;
    let mut i: usize = 0;
    while i < state.spells_cast_this_turn_by_player.len()
        invariant
            i <= state.spells_cast_this_turn_by_player@.len(),
            casts == capped(casts_this_turn(state@, i as nat)),
        decreases state.spells_cast_this_turn_by_player@.len() - i,
    {
        let n: usize = state.spells_cast_this_turn_by_player[i].spells.len();
        let here: u32 = if n as u64 > u32::MAX as u64 {
            u32::MAX
        } else {
            n as u32
        };
        casts = casts.saturating_add(here);
        i = i + 1;
    }
    if casts == 0 {
        0
    } else if casts - 1 <= i32::MAX as u32 {
        (casts - 1) as i32
    } else {
        i32::MAX
    }
}

/// CR 702.40: Storm copies the spell for each spell cast before it this turn.
pub open spec fn storm_trigger(
    g: Game,
    spell: ObjectId,
    caster: PlayerId,
    event: GameEvent,
) -> PendingTrigger {
    unprinted(
        spell,
        caster,
        Some(Rc::new(TriggerCondition::WasCast)),
        ResolvedAbility {
            repeat_for: Some(Rc::new(QuantityExpr::Fixed { value: storm_copies(g) })),
            ..ResolvedAbility::plain(
                Effect::CopySpell { target: TargetFilter::SelfRef },
                seq![],
                spell,
                caster,
            )
        },
        0,
        event,
        Some(Text::Literal("Storm")),
        None,
    )
}

fn build_storm_trigger(
    state: &GameState,
    spell: ObjectId,
    caster: PlayerId,
    event: &GameEvent,
) -> (r: PendingTrigger)
    ensures
        r == storm_trigger(state@, spell, caster, *event),
{
    let mut ability = ResolvedAbility::new(
        Effect::CopySpell { target: TargetFilter::SelfRef },
        Vec::new(),
        spell,
        caster,
    );
    ability.repeat_for = Some(
        Rc::new(QuantityExpr::Fixed { value: storm_copy_count_before_cast(state) }),
    );
    build_unprinted(
        spell,
        caster,
        Some(Rc::new(TriggerCondition::WasCast)),
        ability,
        0,
        event,
        Some(Text::Literal("Storm")),
        None,
    )
}

/// CR 702.85a + CR 702.85c: each instance of cascade triggers separately.
pub open spec fn cascade_trigger(
    spell: ObjectId,
    controller: PlayerId,
    event: GameEvent,
) -> PendingTrigger {
    unprinted(
        spell,
        controller,
        Some(Rc::new(TriggerCondition::WasCast)),
        ResolvedAbility::plain(Effect::Cascade, seq![], spell, controller),
        0,
        event,
        Some(Text::Literal("Cascade")),
        None,
    )
}

fn build_cascade_trigger(spell: ObjectId, controller: PlayerId, event: &GameEvent) -> (r:
    PendingTrigger)
    ensures
        r == cascade_trigger(spell, controller, *event),
{
    build_unprinted(
        spell,
        controller,
        Some(Rc::new(TriggerCondition::WasCast)),
        ResolvedAbility::new(Effect::Cascade, Vec::new(), spell, controller),
        0,
        event,
        Some(Text::Literal("Cascade")),
        None,
    )
}

/// CR 702.153a: what casualty does once it has been paid: copy the spell.
pub open spec fn casualty_copy() -> AbilityDefinition {
    AbilityDefinition {
        condition: Some(AbilityCondition::AdditionalCostPaid),
        ..AbilityDefinition::plain(
            AbilityKind::Spell,
            Effect::CopySpell { target: TargetFilter::SelfRef },
        )
    }
}

pub fn casualty_copy_ability_definition() -> (r: AbilityDefinition)
    ensures
        r == casualty_copy(),
{
    let mut def = AbilityDefinition::new(
        AbilityKind::Spell,
        Effect::CopySpell { target: TargetFilter::SelfRef },
    );
    def.condition = Some(AbilityCondition::AdditionalCostPaid);
    def
}

pub open spec fn casualty_trigger(
    spell: ObjectId,
    controller: PlayerId,
    event: GameEvent,
) -> PendingTrigger {
    let ability = resolved_from(casualty_copy(), spell, controller);
    unprinted(
        spell,
        controller,
        Some(Rc::new(TriggerCondition::WasCast)),
        ResolvedAbility {
            context: SpellContext { additional_cost_paid: true, ..ability.context },
            ..ability
        },
        0,
        event,
        Some(Text::Literal("Casualty")),
        None,
    )
}

fn build_casualty_trigger(spell: ObjectId, controller: PlayerId, event: &GameEvent) -> (r:
    PendingTrigger)
    ensures
        r == casualty_trigger(spell, controller, *event),
{
    let mut ability = build_resolved_from_def(
        &casualty_copy_ability_definition(),
        spell,
        controller,
    );
    ability.context.additional_cost_paid = true;
    build_unprinted(
        spell,
        controller,
        Some(Rc::new(TriggerCondition::WasCast)),
        ability,
        0,
        event,
        Some(Text::Literal("Casualty")),
        None,
    )
}

/// The first entry of the stack, from `from` up, with the given identifier.
pub open spec fn stack_entry(stack: Seq<StackEntry>, id: ObjectId, from: nat) -> Option<StackEntry>
    decreases stack.len() - from,
{
    if from >= stack.len() {
        None
    } else if stack[from as int].id == id {
        Some(stack[from as int])
    } else {
        stack_entry(stack, id, from + 1)
    }
}

/// Whether the additional cost of a spell on the stack was paid.
pub open spec fn additional_cost_paid(g: Game, spell: ObjectId) -> bool {
    match stack_entry(g.stack, spell, 0) {
        None => false,
        Some(entry) => match entry.ability_spec() {
            None => false,
            Some(ability) => ability.context.additional_cost_paid,
        },
    }
}

fn check_additional_cost_paid(state: &GameState, spell: ObjectId) -> (r: bool)
    ensures
        r == additional_cost_paid(state@, spell),
{
    let mut i: usize = 0;
    while i < state.stack.len()
        invariant
            i <= state.stack@.len(),
            stack_entry(state@.stack, spell, 0) == stack_entry(state@.stack, spell, i as nat),
        decreases state.stack@.len() - i,
    {
        if state.stack[i].id == spell {
            return match state.stack[i].ability() {
                None => false,
                Some(ability) => ability.context.additional_cost_paid,
            };
        }
        i = i + 1;
    }
    false
}

/// How often a spell triggers its storm.
pub open spec fn storm_instances(g: Game, spell: ObjectId) -> u32 {
    capped(effective_keywords(g, spell, KeywordKind::Storm))
}

/// How often a spell triggers its own cascade.
pub open spec fn cascade_instances(g: Game, spell: ObjectId) -> u32 {
    match g.object(spell) {
        None => 0,
        Some(o) => capped(count_kind(o.keywords, KeywordKind::Cascade)),
    }
}

/// How often a spell triggers casualty that something else gave it: only where its cost was
/// paid and the spell prints no additional cost of its own.
pub open spec fn casualty_instances(g: Game, spell: ObjectId) -> u32 {
    match g.object(spell) {
        None => 0,
        Some(o) => if !o.has_additional_cost && additional_cost_paid(g, spell) {
            capped(effective_keywords(g, spell, KeywordKind::Casualty))
        } else {
            0
        },
    }
}

/// The controller of a spell, or the first player where it is not known.
pub open spec fn spell_controller(g: Game, spell: ObjectId) -> PlayerId {
    match g.object(spell) {
        None => PlayerId(0),
        Some(o) => o.controller,
    }
}

/// The triggers of a spell that is being cast, each with a timestamp of its own.
#[verifier::opaque]
pub open spec fn cast_triggers(g: Game, event: GameEvent) -> Seq<PendingTriggerContext> {
    match event {
        GameEvent::SpellCast { object_id, controller, .. } => {
            let storms = storm_instances(g, object_id) as nat;
            let cascades = cascade_instances(g, object_id) as nat;
            let casualties = casualty_instances(g, object_id) as nat;
            let owner = spell_controller(g, object_id);
            let first = g.timestamp_counter;
            let second = stamp_after(first, storms);
            let third = stamp_after(second, cascades);
            stamped_copies(storm_trigger(g, object_id, controller, event), first, storms)
                + stamped_copies(cascade_trigger(object_id, owner, event), second, cascades)
                + stamped_copies(casualty_trigger(object_id, owner, event), third, casualties)
        },
        _ => seq![],
    }
}

/// The game once the triggers of a spell have taken their timestamps.
#[verifier::opaque]
pub open spec fn after_cast_triggers(g: Game, event: GameEvent) -> Game {
    match event {
        GameEvent::SpellCast { object_id, .. } => Game {
            timestamp_counter: stamp_after(
                stamp_after(
                    stamp_after(g.timestamp_counter, storm_instances(g, object_id) as nat),
                    cascade_instances(g, object_id) as nat,
                ),
                casualty_instances(g, object_id) as nat,
            ),
            ..g
        },
        _ => g,
    }
}

/// CR 603.3b: every instance gets a timestamp of its own, so that the order among triggers of
/// one spell is settled.
pub fn push_cast_triggers(
    state: &mut GameState,
    event: &GameEvent,
    pending: &mut Vec<PendingTriggerContext>,
)
    ensures
        final(state)@ == after_cast_triggers(old(state)@, *event),
        final(pending)@ == old(pending)@ + cast_triggers(old(state)@, *event),
{
    proof {
        reveal(cast_triggers);
        reveal(after_cast_triggers);
    }
    if let GameEvent::SpellCast { object_id, controller, .. } = event {
        let spell = *object_id;
        let storms: u32 = effective_spell_keyword_count(state, spell, KeywordKind::Storm);
        let (cascades, casualties, owner): (u32, u32, PlayerId) = match state.objects.get(&spell) {
            None => (0, 0, PlayerId(0)),
            Some(o) => (
                number_of_kind(&o.keywords, KeywordKind::Cascade),
                if !o.has_additional_cost && check_additional_cost_paid(state, spell) {
                    effective_spell_keyword_count(state, spell, KeywordKind::Casualty)
                } else {
                    0
                },
                o.controller,
            ),
        };
        let storm = build_storm_trigger(state, spell, *controller, event);
        let cascade = build_cascade_trigger(spell, owner, event);
        let casualty = build_casualty_trigger(spell, owner, event);
        push_stamped(state, &storm, storms, pending);
        push_stamped(state, &cascade, cascades, pending);
        push_stamped(state, &casualty, casualties, pending);
    }
    assert(pending@ =~= old(pending)@ + cast_triggers(old(state)@, *event));
}

/// A trigger of the game itself.
pub open spec fn rule_trigger(
    source_id: ObjectId,
    controller: PlayerId,
    effect: Effect,
    event: GameEvent,
    description: &'static str,
) -> PendingTriggerContext {
    single_context(
        unprinted(
            source_id,
            controller,
            None,
            ResolvedAbility::plain(effect, seq![], source_id, controller),
            0,
            event,
            Some(Text::Literal(description)),
            None,
        ),
    )
}

fn build_rule_trigger(
    source_id: ObjectId,
    controller: PlayerId,
    effect: Effect,
    event: &GameEvent,
    description: &'static str,
) -> (r: PendingTriggerContext)
    ensures
        r == rule_trigger(source_id, controller, effect, *event, description),
{
    PendingTriggerContext::single(
        build_unprinted(
            source_id,
            controller,
            None,
            ResolvedAbility::new(effect, Vec::new(), source_id, controller),
            0,
            event,
            Some(Text::Literal(description)),
            None,
        ),
    )
}

/// CR 725.2: At the beginning of the monarch's end step, that player draws a card. At the
/// beginning of the initiative holder's upkeep, that player ventures into the Undercity.
/// CR 728.1: At the beginning of each player's precombat main phase, if that player has one or
/// more rad counters, they are processed.
pub open spec fn phase_triggers(g: Game, event: GameEvent) -> Seq<PendingTriggerContext> {
    match event {
        GameEvent::PhaseChanged { phase } => if phase == Phase::End && g.monarch == Some(
            g.active_player,
        ) {
            seq![
                rule_trigger(
                    ObjectId(0),
                    g.active_player,
                    draw_one(),
                    event,
                    "Monarch draw (CR 725.2)",
                ),
            ]
        } else if phase == Phase::Upkeep && g.initiative == Some(g.active_player) {
            seq![
                rule_trigger(
                    ObjectId(0),
                    g.active_player,
                    Effect::VentureInto { dungeon: DungeonId::Undercity },
                    event,
                    "Initiative upkeep venture (CR 725.2)",
                ),
            ]
        } else if phase == Phase::PreCombatMain && (g.player(g.active_player) matches Some(p)
            && p.rad_counters > 0) {
            seq![
                rule_trigger(
                    ObjectId(0),
                    g.active_player,
                    Effect::ProcessRadCounters,
                    event,
                    "Rad counters (CR 728.1)",
                ),
            ]
        } else {
            seq![]
        },
        _ => seq![],
    }
}

fn push_phase_triggers(
    state: &GameState,
    event: &GameEvent,
    pending: &mut Vec<PendingTriggerContext>,
)
    ensures
        final(pending)@ == old(pending)@ + phase_triggers(state@, *event),
{
    if let GameEvent::PhaseChanged { phase } = event {
        let active = state.active_player;
        if *phase == Phase::End && state.monarch == Some(active) {
            pending.push(
                build_rule_trigger(
                    ObjectId(0),
                    active,
                    build_draw_one(),
                    event,
                    "Monarch draw (CR 725.2)",
                ),
            );
        } else if *phase == Phase::Upkeep && state.initiative == Some(active) {
            pending.push(
                build_rule_trigger(
                    ObjectId(0),
                    active,
                    Effect::VentureInto { dungeon: DungeonId::Undercity },
                    event,
                    "Initiative upkeep venture (CR 725.2)",
                ),
            );
        } else if *phase == Phase::PreCombatMain {
            let rad_count: u32 = match state.get_player(active) {
                None => 0,
                Some(p) => p.rad_counters,
            };
            if rad_count > 0 {
                pending.push(
                    build_rule_trigger(
                        ObjectId(0),
                        active,
                        Effect::ProcessRadCounters,
                        event,
                        "Rad counters (CR 728.1)",
                    ),
                );
            }
        }
    }
    assert(pending@ =~= old(pending)@ + phase_triggers(state@, *event));
}

/// The controller of a creature that dealt combat damage to another player, with that player.
pub open spec fn combat_damage_by(g: Game, event: GameEvent) -> Option<
    (ObjectId, PlayerId, PlayerId),
> {
    match event {
        GameEvent::DamageDealt {
            source_id,
            target: TargetRef::Player(player),
            is_combat,
            ..
        } => match g.controller_of(source_id) {
            Some(attacker) => if is_combat && attacker != player {
                Some((source_id, attacker, player))
            } else {
                None
            },
            None => None,
        },
        _ => None,
    }
}

fn find_combat_damage_by(state: &GameState, event: &GameEvent) -> (r: Option<
    (ObjectId, PlayerId, PlayerId),
>)
    ensures
        r == combat_damage_by(state@, *event),
{
    match event {
        GameEvent::DamageDealt {
            source_id,
            target: TargetRef::Player(player),
            is_combat,
            ..
        } => match state.objects.get(source_id) {
            Some(o) => if *is_combat && o.controller != *player {
                Some((*source_id, o.controller, *player))
            } else {
                None
            },
            None => None,
        },
        _ => None,
    }
}

/// CR 725.2: When a creature deals combat damage to the monarch, its controller
/// becomes the monarch; likewise for the initiative.
pub open spec fn damage_triggers(g: Game, event: GameEvent) -> Seq<PendingTriggerContext> {
    match combat_damage_by(g, event) {
        None => seq![],
        Some((source_id, attacker, player)) => {
            (if g.monarch == Some(player) {
                seq![
                    rule_trigger(
                        source_id,
                        attacker,
                        Effect::BecomeMonarch,
                        event,
                        "Monarch steal (CR 725.2)",
                    ),
                ]
            } else {
                seq![]
            }) + (if g.initiative == Some(player) {
                seq![
                    rule_trigger(
                        source_id,
                        attacker,
                        Effect::TakeTheInitiative,
                        event,
                        "Initiative steal (CR 725.2)",
                    ),
                ]
            } else {
                seq![]
            })
        },
    }
}

fn push_damage_triggers(
    state: &GameState,
    event: &GameEvent,
    pending: &mut Vec<PendingTriggerContext>,
)
    ensures
        final(pending)@ == old(pending)@ + damage_triggers(state@, *event),
{
    if let Some((source_id, attacker, player)) = find_combat_damage_by(state, event) {
        if state.monarch == Some(player) {
            pending.push(
                build_rule_trigger(
                    source_id,
                    attacker,
                    Effect::BecomeMonarch,
                    event,
                    "Monarch steal (CR 725.2)",
                ),
            );
        }
        if state.initiative == Some(player) {
            pending.push(
                build_rule_trigger(
                    source_id,
                    attacker,
                    Effect::TakeTheInitiative,
                    event,
                    "Initiative steal (CR 725.2)",
                ),
            );
        }
    }
    assert(pending@ =~= old(pending)@ + damage_triggers(state@, *event));
}

/// CR 702.179d: The player with speed has an inherent no-source trigger that
/// increases their speed once each turn when one or more opponents lose life
/// during that player's turn, if their speed is less than 4.
pub open spec fn speeds_up(g: Game, event: GameEvent) -> bool {
    event matches GameEvent::LifeChanged { player_id, amount } && amount < 0 && player_id
        != g.active_player && 0 < speed_of(g, g.active_player) < MAX_SPEED && speed_trigger_free(
        g,
        g.active_player,
    )
}

fn check_speeds_up(state: &GameState, event: &GameEvent) -> (r: bool)
    ensures
        r == speeds_up(state@, *event),
{
    match event {
        GameEvent::LifeChanged { player_id, amount } => *amount < 0 && *player_id
            != state.active_player && effective_speed(state, state.active_player) > 0
            && speed_trigger_available(state, state.active_player) && !has_max_speed(
            state,
            state.active_player,
        ),
        _ => false,
    }
}

pub open spec fn speed_triggers(g: Game, event: GameEvent) -> Seq<PendingTriggerContext> {
    if speeds_up(g, event) {
        seq![
            rule_trigger(
                ObjectId(0),
                g.active_player,
                Effect::IncreaseSpeed {
                    player_scope: PlayerFilter::Controller,
                    amount: QuantityExpr::Fixed { value: 1 },
                },
                event,
                "Start your engines! (CR 702.179d)",
            ),
        ]
    } else {
        seq![]
    }
}

/// The game once the speed trigger has fired, where it has.
#[verifier::opaque]
pub open spec fn after_speed_triggers(g: Game, event: GameEvent) -> Game {
    if speeds_up(g, event) {
        speed_trigger_spent(g, g.active_player)
    } else {
        g
    }
}

/// CR 701.54c: from the second level on, "Whenever your Ring-bearer attacks, draw a card, then
/// discard a card."
pub open spec fn ring_attack_ability(player: PlayerId) -> ResolvedAbility {
    ResolvedAbility {
        sub_ability: Some(
            Rc::new(
                ResolvedAbility::plain(
                    Effect::Discard {
                        count: QuantityExpr::Fixed { value: 1 },
                        target: TargetFilter::Controller,
                    },
                    seq![],
                    ObjectId(0),
                    player,
                ),
            ),
        ),
        ..ResolvedAbility::plain(draw_one(), seq![], ObjectId(0), player)
    }
}

/// From the third level on, "Whenever your Ring-bearer becomes blocked by a creature, that
/// creature's controller sacrifices it at end of combat."
pub open spec fn ring_block_ability(
    player: PlayerId,
    blocker: ObjectId,
    blocker_controller: Option<PlayerId>,
) -> ResolvedAbility {
    let sacrifice = Effect::Sacrifice {
        target: TargetFilter::And {
            filters: list_of(
                seq![
                    TargetFilter::SpecificObject { id: blocker },
                    TargetFilter::Typed(
                        TypedFilter {
                            type_filters: list_of(seq![TypeFilter::Creature]),
                            controller: None,
                            properties: list_of(seq![]),
                        },
                    ),
                ],
            ),
        },
        count: QuantityExpr::Fixed { value: 1 },
        min_count: 0,
    };
    ResolvedAbility {
        scoped_player: blocker_controller,
        ..ResolvedAbility::plain(
            Effect::CreateDelayedTrigger {
                condition: DelayedTiming::AtNextPhase { phase: Phase::EndCombat },
                kind: AbilityKind::Spell,
                effect: Rc::new(sacrifice),
                uses_tracked_set: false,
            },
            seq![],
            ObjectId(0),
            player,
        )
    }
}

/// From the fourth level on, "Whenever your Ring-bearer deals combat damage to a player, each
/// opponent loses 3 life."
pub open spec fn ring_damage_ability(player: PlayerId) -> ResolvedAbility {
    ResolvedAbility {
        player_scope: Some(PlayerFilter::Opponent),
        ..ResolvedAbility::plain(
            Effect::LoseLife { amount: QuantityExpr::Fixed { value: 3 }, target: None },
            seq![],
            ObjectId(0),
            player,
        )
    }
}

pub open spec fn ring_trigger(player: PlayerId, ability: ResolvedAbility, event: GameEvent) ->
    PendingTriggerContext {
    single_context(
        unprinted(
            ObjectId(0),
            player,
            None,
            ability,
            0,
            event,
            Some(Text::Literal("The Ring (CR 701.54c)")),
            None,
        ),
    )
}

fn build_ring_trigger(player: PlayerId, ability: ResolvedAbility, event: &GameEvent) -> (r:
    PendingTriggerContext)
    ensures
        r == ring_trigger(player, ability, *event),
{
    PendingTriggerContext::single(
        build_unprinted(
            ObjectId(0),
            player,
            None,
            ability,
            0,
            event,
            Some(Text::Literal("The Ring (CR 701.54c)")),
            None,
        ),
    )
}

/// One trigger for each creature that blocks the bearer.
pub open spec fn ring_block_triggers(
    g: Game,
    player: PlayerId,
    bearer: ObjectId,
    blocks: List<(ObjectId, ObjectId)>,
    event: GameEvent,
) -> Seq<PendingTriggerContext>
    decreases blocks,
{
    match blocks.node {
        None => seq![],
        Some(n) => {
            let rest = ring_block_triggers(g, player, bearer, n.rest, event);
            if n.item.1 == bearer {
                seq![
                    ring_trigger(
                        player,
                        ring_block_ability(player, n.item.0, g.controller_of(n.item.0)),
                        event,
                    ),
                ] + rest
            } else {
                rest
            }
        },
    }
}

fn push_ring_block_triggers(
    state: &GameState,
    player: PlayerId,
    bearer: ObjectId,
    blocks: &List<(ObjectId, ObjectId)>,
    event: &GameEvent,
    pending: &mut Vec<PendingTriggerContext>,
)
    ensures
        final(pending)@ == old(pending)@ + ring_block_triggers(
            state@,
            player,
            bearer,
            *blocks,
            *event,
        ),
    decreases blocks,
{
    match &blocks.node {
        None => {},
        Some(n) => {
            if n.item.1 == bearer {
                let filters: Vec<TargetFilter> = vec![
                    TargetFilter::SpecificObject { id: n.item.0 },
                    TargetFilter::Typed(
                        TypedFilter {
                            type_filters: List::one(TypeFilter::Creature),
                            controller: None,
                            properties: List::new(),
                        },
                    ),
                ];
                assert(filters@ =~= seq![filters@[0], filters@[1]]);
                let sacrifice = Effect::Sacrifice {
                    target: TargetFilter::And { filters: List::from_vec(filters) },
                    count: QuantityExpr::Fixed { value: 1 },
                    min_count: 0,
                };
                let mut ability = ResolvedAbility::new(
                    Effect::CreateDelayedTrigger {
                        condition: DelayedTiming::AtNextPhase { phase: Phase::EndCombat },
                        kind: AbilityKind::Spell,
                        effect: Rc::new(sacrifice),
                        uses_tracked_set: false,
                    },
                    Vec::new(),
                    ObjectId(0),
                    player,
                );
                ability.scoped_player = match state.objects.get(&n.item.0) {
                    None => None,
                    Some(o) => Some(o.controller),
                };
                pending.push(build_ring_trigger(player, ability, event));
            }
            push_ring_block_triggers(state, player, bearer, &n.rest, event, pending);
        },
    }
    assert(pending@ =~= old(pending)@ + ring_block_triggers(
        state@,
        player,
        bearer,
        *blocks,
        *event,
    ));
}

/// Whether an object is among the sources of some damage.
pub open spec fn is_source(amounts: List<(ObjectId, u32)>, id: ObjectId) -> bool
    decreases amounts,
{
    match amounts.node {
        None => false,
        Some(n) => n.item.0 == id || is_source(n.rest, id),
    }
}

fn find_source(amounts: &List<(ObjectId, u32)>, id: ObjectId) -> (r: bool)
    ensures
        r == is_source(*amounts, id),
    decreases amounts,
{
    match &amounts.node {
        None => false,
        Some(n) => n.item.0 == id || find_source(&n.rest, id),
    }
}

/// What the Ring of one player triggers on an event.
pub open spec fn ring_triggers_of(g: Game, player: PlayerId, event: GameEvent) -> Seq<
    PendingTriggerContext,
> {
    let level = ring_level_of(g, player);
    match bearer_of(g, player) {
        None => seq![],
        Some(bearer) => match event {
            GameEvent::AttackersDeclared { attacker_ids, .. } => if level >= 2
                && attacker_ids@.contains(bearer) {
                seq![ring_trigger(player, ring_attack_ability(player), event)]
            } else {
                seq![]
            },
            GameEvent::BlockersDeclared { assignments } => if level >= 3 {
                ring_block_triggers(g, player, bearer, assignments, event)
            } else {
                seq![]
            },
            GameEvent::CombatDamageDealtToPlayer { source_amounts, .. } => if level >= 4
                && is_source(source_amounts, bearer) {
                seq![ring_trigger(player, ring_damage_ability(player), event)]
            } else {
                seq![]
            },
            _ => seq![],
        },
    }
}

fn push_ring_triggers_of(
    state: &GameState,
    player: PlayerId,
    event: &GameEvent,
    pending: &mut Vec<PendingTriggerContext>,
)
    ensures
        final(pending)@ == old(pending)@ + ring_triggers_of(state@, player, *event),
{
    let level: u8 = find_ring_level(state, player);
    if let Some(bearer) = ring_bearer_for(state, player) {
        match event {
            GameEvent::AttackersDeclared { attacker_ids, .. } => {
                if level >= 2 && attacker_ids.contains(&bearer) {
                    let mut ability = ResolvedAbility::new(
                        build_draw_one(),
                        Vec::new(),
                        ObjectId(0),
                        player,
                    );
                    ability.sub_ability = Some(
                        Rc::new(
                            ResolvedAbility::new(
                                Effect::Discard {
                                    count: QuantityExpr::Fixed { value: 1 },
                                    target: TargetFilter::Controller,
                                },
                                Vec::new(),
                                ObjectId(0),
                                player,
                            ),
                        ),
                    );
                    pending.push(build_ring_trigger(player, ability, event));
                }
            },
            GameEvent::BlockersDeclared { assignments } => {
                if level >= 3 {
                    push_ring_block_triggers(state, player, bearer, assignments, event, pending);
                }
            },
            GameEvent::CombatDamageDealtToPlayer { source_amounts, .. } => {
                if level >= 4 && find_source(source_amounts, bearer) {
                    let mut ability = ResolvedAbility::new(
                        Effect::LoseLife { amount: QuantityExpr::Fixed { value: 3 }, target: None },
                        Vec::new(),
                        ObjectId(0),
                        player,
                    );
                    ability.player_scope = Some(PlayerFilter::Opponent);
                    pending.push(build_ring_trigger(player, ability, event));
                }
            },
            _ => {},
        }
    }
    assert(pending@ =~= old(pending)@ + ring_triggers_of(state@, player, *event));
}

/// What the Rings of the first `n` players trigger on an event.
pub open spec fn ring_triggers(g: Game, event: GameEvent, n: nat) -> Seq<PendingTriggerContext>
    decreases n,
{
    if n == 0 {
        seq![]
    } else {
        ring_triggers(g, event, (n - 1) as nat) + ring_triggers_of(g, g.players[n - 1].id, event)
    }
}

fn push_ring_triggers(
    state: &GameState,
    event: &GameEvent,
    pending: &mut Vec<PendingTriggerContext>,
)
    ensures
        final(pending)@ == old(pending)@ + ring_triggers(state@, *event, state@.players.len()),
{
    let mut i: usize = 0;
    assert(pending@ =~= old(pending)@ + ring_triggers(state@, *event, 0));
    while i < state.players.len()
        invariant
            i <= state.players@.len(),
            pending@ == old(pending)@ + ring_triggers(state@, *event, i as nat),
        decreases state.players@.len() - i,
    {
        push_ring_triggers_of(state, state.players[i].id, event, pending);
        i = i + 1;
        assert(pending@ =~= old(pending)@ + ring_triggers(state@, *event, i as nat));
    }
}

/// What the rules themselves trigger on an event.
#[verifier::opaque]
pub open spec fn rule_triggers(g: Game, event: GameEvent) -> Seq<PendingTriggerContext> {
    phase_triggers(g, event) + damage_triggers(g, event) + speed_triggers(g, event)
        + ring_triggers(g, event, g.players.len())
}

pub fn push_rule_triggers(
    state: &mut GameState,
    event: &GameEvent,
    pending: &mut Vec<PendingTriggerContext>,
)
    ensures
        final(state)@ == after_speed_triggers(old(state)@, *event),
        final(pending)@ == old(pending)@ + rule_triggers(old(state)@, *event),
{
    proof {
        reveal(rule_triggers);
        reveal(after_speed_triggers);
    }
    push_phase_triggers(state, event, pending);
    push_damage_triggers(state, event, pending);
    let speeds: bool = check_speeds_up(state, event);
    if speeds {
        pending.push(
            build_rule_trigger(
                speed_key_source(),
                state.active_player,
                Effect::IncreaseSpeed {
                    player_scope: PlayerFilter::Controller,
                    amount: QuantityExpr::Fixed { value: 1 },
                },
                event,
                "Start your engines! (CR 702.179d)",
            ),
        );
    }
    push_ring_triggers(state, event, pending);
    assert(pending@ =~= old(pending)@ + rule_triggers(old(state)@, *event));
    if speeds {
        let player = state.active_player;
        mark_speed_trigger_used(state, player);
    }
}

} // verus!
