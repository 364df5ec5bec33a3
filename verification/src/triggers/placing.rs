//! From pending triggers to the stack (CR 603.3): doubling, targets, and the ability itself.

use crate::ability::{
    ResolvedAbility, StaticDefinition, StaticMode, TargetSelectionMode, TriggerCause,
};
use crate::events::GameEvent;
use crate::filter::{
    matches_target_filter, object_matches, share_type, source_context, types_meet, FilterContext,
};
use crate::functioning::{is_static_active, static_applies};
use crate::ids::{CoreType, ObjectId, Zone};
use crate::list::{list_of, List};
use crate::mana::{
    is_mana_ability, is_triggered_mana_ability, mana_made, resolve_triggered_mana_ability_inline,
};
use crate::object::GameObject;
use crate::quantity::opt_event;
use crate::stack::push_to_stack;
use crate::state::{
    bump, next_number, same_table, Game, GameState, StackEntry, StackEntryKind, WaitingFor,
};
use crate::targeting::{
    all_targets, assign_targets_in_chain, auto_choice, auto_select_targets, build_target_slots,
    chain_slots, extract_fixed_distribution_total, fixed_total, flatten_targets_in_chain,
    random_choice, random_select_targets, rng_after, with_targets, TargetChoice, TargetSlot,
};
use crate::text::Text;
use crate::triggers::collect::{list_own_event, own_event, PendingTriggerContext};
use crate::triggers::PendingTrigger;
use vstd::prelude::*;

verus! {

/// Whether the event that spawned a trigger is of the kind that a doubler asks for.
pub open spec fn cause_matches(cause: TriggerCause, event: Option<GameEvent>) -> bool {
    match cause {
        TriggerCause::Any => true,
        TriggerCause::EntersBattlefield { core_types } => match event {
            Some(GameEvent::ZoneChanged { to, record, .. }) => to == Zone::Battlefield && (
            core_types@.len() == 0 || types_meet(record.core_types, core_types@)),
            _ => false,
        },
        TriggerCause::CreatureAttacking => event is Some && event->0 is AttackersDeclared,
        TriggerCause::CreatureDying => match event {
            Some(GameEvent::ZoneChanged { from, to, record, .. }) => from == Some(
                Zone::Battlefield,
            ) && to == Zone::Graveyard && record.core_types@.contains(CoreType::Creature),
            _ => false,
        },
    }
}

/// CR 603.2d: Predicate check: does a `TriggerCause` match the event that
/// spawned a pending trigger?
///
/// - `TriggerCause::Any` matches any event, even an absent one.
/// - `TriggerCause::EntersBattlefield { core_types }` matches `ZoneChanged`
///   events moving to the battlefield whose object's core types intersect
///   the predicate's `core_types`. An empty `core_types` list means "any
///   permanent".
/// - `TriggerCause::CreatureAttacking` matches `AttackersDeclared` events.
/// - `TriggerCause::CreatureDying` matches a creature that went from the battlefield to a
///   graveyard, by what it was before it went.
pub fn trigger_cause_matches(cause: &TriggerCause, event: Option<&GameEvent>) -> (r: bool)
    ensures
        r == cause_matches(*cause, opt_event(event)),
{
    match cause {
        TriggerCause::Any => true,
        TriggerCause::EntersBattlefield { core_types } => match event {
            Some(GameEvent::ZoneChanged { to, record, .. }) => *to == Zone::Battlefield && (
            core_types.is_empty() || share_type(&record.core_types, core_types)),
            _ => false,
        },
        TriggerCause::CreatureAttacking => match event {
            Some(GameEvent::AttackersDeclared { .. }) => true,
            _ => false,
        },
        TriggerCause::CreatureDying => match event {
            Some(GameEvent::ZoneChanged { from, to, record, .. }) => *from == Some(
                Zone::Battlefield,
            ) && *to == Zone::Graveyard && record.core_types.contains(&CoreType::Creature),
            _ => false,
        },
    }
}

/// The first static ability of an object that doubles triggers and applies.
pub open spec fn doubling_static(g: Game, o: GameObject, defs: List<StaticDefinition>) -> Option<
    StaticDefinition,
>
    decreases defs,
{
    match defs.node {
        None => None,
        Some(n) => if n.item.mode is DoubleTriggers && static_applies(g, o, *n.item) {
            Some(*n.item)
        } else {
            doubling_static(g, o, n.rest)
        },
    }
}

fn find_doubling_static<'a>(
    state: &GameState,
    o: &GameObject,
    defs: &'a List<StaticDefinition>,
) -> (r: Option<&'a StaticDefinition>)
    ensures
        match r {
            None => doubling_static(state@, *o, *defs) is None,
            Some(def) => doubling_static(state@, *o, *defs) == Some(*def),
        },
    decreases defs,
{
    match &defs.node {
        None => None,
        Some(n) => {
            let doubles: bool = match &n.item.mode {
                StaticMode::DoubleTriggers { .. } => true,
                _ => false,
            };
            if doubles && is_static_active(state, o, &n.item) {
                Some(&n.item)
            } else {
                find_doubling_static(state, o, &n.rest)
            }
        },
    }
}

/// Whether a doubler makes a trigger happen once more: one of its controller's, not its own, with
/// a cause and a source that it asks for.
pub open spec fn doubles(
    g: Game,
    id: ObjectId,
    o: GameObject,
    def: StaticDefinition,
    trigger: PendingTrigger,
) -> bool {
    &&& trigger.controller == o.controller
    &&& trigger.source_id != id
    &&& match def.mode {
        StaticMode::DoubleTriggers { cause } => cause_matches(cause, trigger.trigger_event),
        _ => false,
    }
    &&& match def.affected {
        None => true,
        Some(f) => object_matches(g, trigger.source_id, f, source_context(g, id)),
    }
}

fn check_doubles(
    state: &GameState,
    id: ObjectId,
    o: &GameObject,
    def: &StaticDefinition,
    trigger: &PendingTrigger,
) -> (r: bool)
    ensures
        r == doubles(state@, id, *o, *def, *trigger),
{
    trigger.controller == o.controller && trigger.source_id != id && (match &def.mode {
        StaticMode::DoubleTriggers { cause } => trigger_cause_matches(
            cause,
            trigger.trigger_event.as_ref(),
        ),
        _ => false,
    }) && match &def.affected {
        None => true,
        Some(f) => matches_target_filter(
            state,
            trigger.source_id,
            f,
            &FilterContext::from_source(state, id),
        ),
    }
}

/// Those of the first `n` triggers that a doubler makes happen once more.
pub open spec fn doubled_by(
    g: Game,
    id: ObjectId,
    o: GameObject,
    def: StaticDefinition,
    pending: Seq<PendingTriggerContext>,
    n: nat,
) -> Seq<PendingTriggerContext>
    decreases n,
{
    if n == 0 {
        seq![]
    } else {
        let before = doubled_by(g, id, o, def, pending, (n - 1) as nat);
        if doubles(g, id, o, def, pending[n - 1].pending) {
            before.push(pending[n - 1])
        } else {
            before
        }
    }
}

/// What the first `n` permanents make happen once more.
pub open spec fn doubled(g: Game, pending: Seq<PendingTriggerContext>, n: nat) -> Seq<
    PendingTriggerContext,
>
    decreases n,
{
    if n == 0 {
        seq![]
    } else {
        let id = g.battlefield[n - 1];
        let before = doubled(g, pending, (n - 1) as nat);
        match g.object(id) {
            None => before,
            Some(o) => match doubling_static(g, o, o.static_definitions) {
                None => before,
                Some(def) => before + doubled_by(g, id, o, def, pending, pending.len()),
            },
        }
    }
}

/// The triggers with those that are doubled behind them.
#[verifier::opaque]
pub open spec fn with_doubles(g: Game, pending: Seq<PendingTriggerContext>) -> Seq<
    PendingTriggerContext,
> {
    pending + doubled(g, pending, g.battlefield.len())
}

fn push_doubled_by(
    state: &GameState,
    id: ObjectId,
    o: &GameObject,
    def: &StaticDefinition,
    pending: &Vec<PendingTriggerContext>,
    extra: &mut Vec<PendingTriggerContext>,
)
    ensures
        final(extra)@ == old(extra)@ + doubled_by(
            state@,
            id,
            *o,
            *def,
            pending@,
            pending@.len(),
        ),
{
    let mut i: usize = 0;
    assert(extra@ =~= old(extra)@ + doubled_by(state@, id, *o, *def, pending@, 0));
    while i < pending.len()
        invariant
            i <= pending@.len(),
            extra@ == old(extra)@ + doubled_by(state@, id, *o, *def, pending@, i as nat),
        decreases pending@.len() - i,
    {
        if check_doubles(state, id, o, def, &pending[i].pending) {
            extra.push(pending[i].clone());
        }
        i = i + 1;
        assert(extra@ =~= old(extra)@ + doubled_by(state@, id, *o, *def, pending@, i as nat));
    }
}

/// CR 603.2d: Apply trigger doubling from `StaticMode::DoubleTriggers`
/// static abilities. Scans battlefield for permanents with a DoubleTriggers
/// static, then clones matching pending triggers an additional time. The
/// `TriggerCause` predicate restricts which spawning events qualify.
pub fn apply_trigger_doubling(state: &GameState, pending: &mut Vec<PendingTriggerContext>)
    ensures
        final(pending)@ == with_doubles(state@, old(pending)@),
{
    let mut extra: Vec<PendingTriggerContext> = Vec::new();
    let mut i: usize = 0;
    assert(extra@ =~= doubled(state@, pending@, 0));
    while i < state.battlefield.len()
        invariant
            i <= state.battlefield@.len(),
            pending@ == old(pending)@,
            extra@ == doubled(state@, pending@, i as nat),
        decreases state.battlefield@.len() - i,
    {
        let id = state.battlefield[i];
        if let Some(o) = state.objects.get(&id) {
            if let Some(def) = find_doubling_static(state, o, &o.static_definitions) {
                push_doubled_by(state, id, o, def, pending, &mut extra);
            }
        }
        i = i + 1;
    }
    pending.append(&mut extra);
    proof {
        reveal(with_doubles);
    }
}

/// The name of an object, or an empty text for something that is no object.
pub open spec fn name_of(g: Game, id: ObjectId) -> Text {
    match g.object(id) {
        None => Text::Literal(""),
        Some(o) => o.name,
    }
}

/// A triggered ability as it stands on the stack.
pub open spec fn trigger_entry(g: Game, trigger: PendingTrigger) -> StackEntry {
    StackEntry {
        id: ObjectId(g.next_object_id),
        source_id: trigger.source_id,
        controller: trigger.controller,
        kind: StackEntryKind::TriggeredAbility {
            source_id: trigger.source_id,
            ability: match trigger.may_trigger_origin {
                None => trigger.ability,
                Some(origin) => trigger.ability.with_may_trigger_origin(origin),
            },
            condition: trigger.condition,
            trigger_event: trigger.trigger_event,
            description: trigger.description,
            source_name: name_of(g, trigger.source_id),
        },
    }
}

/// The game after a trigger has been put on the stack. A batch of more than one event is kept
/// for when the ability resolves.
#[verifier::opaque]
pub open spec fn pushed(g: Game, trigger: PendingTrigger, trigger_events: List<GameEvent>) -> Game {
    Game {
        stack: g.stack.push(trigger_entry(g, trigger)),
        next_object_id: next_number(g.next_object_id),
        stack_trigger_event_batches: if trigger_events@.len() > 1 {
            g.stack_trigger_event_batches.insert(ObjectId(g.next_object_id), trigger_events)
        } else {
            g.stack_trigger_event_batches
        },
        ..g
    }
}

pub fn push_pending_trigger_to_stack_with_event_batch(
    state: &mut GameState,
    trigger: PendingTrigger,
    trigger_events: List<GameEvent>,
    events: &mut Vec<GameEvent>,
)
    ensures
        final(state)@ == pushed(old(state)@, trigger, trigger_events),
        final(events)@ == old(events)@.push(
            GameEvent::StackPushed { object_id: ObjectId(old(state)@.next_object_id) },
        ),
{
    proof {
        reveal(pushed);
    }
    let mut ability: ResolvedAbility = trigger.ability.clone();
    if let Some(origin) = trigger.may_trigger_origin {
        ability.set_may_trigger_origin_recursive(origin);
    }
    let entry_id = ObjectId(state.next_object_id);
    // Capture the source's display name at stack-push time. Synthetic game-rule triggers
    // (monarch draw, rad counters) have no source object and no name.
    let source_name = match state.objects.get(&trigger.source_id) {
        None => Text::Literal(""),
        Some(o) => o.name.clone(),
    };
    state.next_object_id = bump(state.next_object_id);
    if trigger_events.len() > 1 {
        state.stack_trigger_event_batches.insert(entry_id, trigger_events);
    }
    let entry = StackEntry {
        id: entry_id,
        source_id: trigger.source_id,
        controller: trigger.controller,
        kind: StackEntryKind::TriggeredAbility {
            source_id: trigger.source_id,
            ability,
            condition: trigger.condition,
            trigger_event: trigger.trigger_event,
            description: trigger.description,
            source_name,
        },
    };
    push_to_stack(state, entry, events);
}

/// Whether the batch that was set aside belongs to a trigger: it begins with the trigger's event.
pub open spec fn batch_belongs(g: Game, trigger: PendingTrigger) -> bool {
    match (g.pending_trigger_event_batch.node, trigger.trigger_event) {
        (Some(n), Some(e)) => crate::events::events_agree(*n.item, e),
        _ => false,
    }
}

/// The events that a trigger goes on the stack with: the batch that was set aside for it, or its
/// own event.
pub open spec fn batch_for(g: Game, trigger: PendingTrigger) -> List<GameEvent> {
    if batch_belongs(g, trigger) {
        g.pending_trigger_event_batch
    } else {
        own_event(trigger)
    }
}

/// Takes the batch that was set aside, where it belongs to the trigger. Nothing stays set aside.
pub fn take_pending_trigger_event_batch(
    state: &mut GameState,
    trigger: &PendingTrigger,
) -> (r: List<GameEvent>)
    ensures
        r == batch_for(old(state)@, *trigger),
        final(state)@ == (Game {
            pending_trigger_event_batch: list_of(seq![]),
            ..old(state)@
        }),
{
    let belongs: bool = match (&state.pending_trigger_event_batch.node, &trigger.trigger_event) {
        (Some(n), Some(e)) => n.item.agrees(e),
        _ => false,
    };
    let r = if belongs {
        state.pending_trigger_event_batch.clone()
    } else {
        list_own_event(trigger)
    };
    state.pending_trigger_event_batch = List::new();
    r
}

/// The game after a pending trigger has been put on the stack with its events.
pub open spec fn trigger_pushed(g: Game, trigger: PendingTrigger) -> Game {
    pushed(
        Game { pending_trigger_event_batch: list_of(seq![]), ..g },
        trigger,
        batch_for(g, trigger),
    )
}

/// CR 603.3: Put triggered ability on the stack.
pub fn push_pending_trigger_to_stack(
    state: &mut GameState,
    trigger: PendingTrigger,
    events: &mut Vec<GameEvent>,
)
    ensures
        final(state)@ == trigger_pushed(old(state)@, trigger),
        final(events)@ == old(events)@.push(
            GameEvent::StackPushed { object_id: ObjectId(old(state)@.next_object_id) },
        ),
{
    let trigger_events = take_pending_trigger_event_batch(state, &trigger);
    push_pending_trigger_to_stack_with_event_batch(state, trigger, trigger_events, events);
}

/// Whether a trigger waits for its controller to choose modes (CR 700.2b).
pub open spec fn is_modal(trigger: PendingTrigger) -> bool {
    trigger.modal is Some && trigger.mode_abilities is Some && trigger.mode_abilities->0@.len() > 0
}

fn check_modal(trigger: &PendingTrigger) -> (r: bool)
    ensures
        r == is_modal(*trigger),
{
    trigger.modal.is_some() && match &trigger.mode_abilities {
        None => false,
        Some(modes) => !modes.is_empty(),
    }
}

/// The game with a trigger set aside for its controller to decide on.
pub open spec fn set_aside(g: Game, trigger: PendingTrigger, events: List<GameEvent>) -> Game {
    Game { pending_trigger: Some(trigger), pending_trigger_event_batch: events, ..g }
}

/// A game, and whether it waits for a decision before more triggers can be placed.
pub struct Placed {
    pub game: Game,
    pub stopped: bool,
}

/// How a trigger with targets is to get them: by chance, or with no choice to make.
pub open spec fn target_choice(g: Game, trigger: PendingTrigger, slots: Seq<TargetSlot>) ->
    TargetChoice {
    if trigger.ability.target_selection_mode == TargetSelectionMode::Random {
        random_choice(g, slots, trigger.target_constraints)
    } else {
        auto_choice(slots, trigger.target_constraints)
    }
}

/// The game once the targets have been settled; chance uses up random numbers.
pub open spec fn after_choice(g: Game, trigger: PendingTrigger, slots: Seq<TargetSlot>) -> Game {
    if trigger.ability.target_selection_mode == TargetSelectionMode::Random {
        Game { rng_state: rng_after(g.rng_state, slots.len()), ..g }
    } else {
        g
    }
}

/// A trigger whose targets are known: on the stack, unless something is still to be divided
/// among several of them (CR 601.2d).
pub open spec fn targeted_placed(
    g: Game,
    trigger: PendingTrigger,
    ability: ResolvedAbility,
    events: List<GameEvent>,
) -> Placed {
    let aimed = PendingTrigger { ability, ..trigger };
    match (trigger.distribute, fixed_total(*ability.effect)) {
        (Some(unit), Some(total)) => {
            let targets = all_targets(ability);
            if targets.len() == 1 {
                Placed {
                    game: pushed(
                        g,
                        PendingTrigger {
                            ability: ResolvedAbility {
                                distribution: Some(list_of(seq![(targets[0], total)])),
                                ..ability
                            },
                            ..trigger
                        },
                        events,
                    ),
                    stopped: false,
                }
            } else {
                Placed {
                    game: Game {
                        waiting_for: WaitingFor::DistributeAmong {
                            player: trigger.controller,
                            total,
                            targets: list_of(targets),
                            unit,
                        },
                        ..set_aside(g, aimed, events)
                    },
                    stopped: true,
                }
            }
        },
        _ => Placed { game: pushed(g, aimed, events), stopped: false },
    }
}

/// What becomes of one trigger whose slots are known and not empty.
pub open spec fn slotted_placed(
    g: Game,
    trigger: PendingTrigger,
    slots: Seq<TargetSlot>,
    events: List<GameEvent>,
) -> Placed {
    let next = after_choice(g, trigger, slots);
    match target_choice(g, trigger, slots) {
        TargetChoice::Settled(choices) => targeted_placed(
            next,
            trigger,
            with_targets(next, trigger.ability, false, choices, 0),
            events,
        ),
        TargetChoice::Open => Placed { game: set_aside(next, trigger, events), stopped: true },
        TargetChoice::Impossible(_) => Placed { game: next, stopped: false },
    }
}

/// What becomes of one trigger: set aside for a choice of modes or targets, dropped for want of
/// a legal target, resolved at once as a mana ability, or put on the stack.
#[verifier::opaque]
pub open spec fn one_placed(g: Game, context: PendingTriggerContext) -> Placed {
    let trigger = context.pending;
    if is_modal(trigger) {
        Placed { game: set_aside(g, trigger, context.trigger_events), stopped: true }
    } else {
        match chain_slots(g, trigger.ability, false) {
            None => Placed { game: g, stopped: false },
            Some(slots) => if slots.len() == 0 {
                if is_mana_ability(trigger.ability, trigger.trigger_event) {
                    Placed {
                        game: mana_made(g, trigger.ability, trigger.trigger_event),
                        stopped: false,
                    }
                } else {
                    Placed { game: pushed(g, trigger, context.trigger_events), stopped: false }
                }
            } else {
                slotted_placed(g, trigger, slots, context.trigger_events)
            },
        }
    }
}

fn place_targeted(
    state: &mut GameState,
    trigger: PendingTrigger,
    ability: ResolvedAbility,
    trigger_events: List<GameEvent>,
    events: &mut Vec<GameEvent>,
) -> (stopped: bool)
    ensures
        final(state)@ == targeted_placed(old(state)@, trigger, ability, trigger_events).game,
        stopped == targeted_placed(old(state)@, trigger, ability, trigger_events).stopped,
{
    let mut trigger = trigger;
    let total = extract_fixed_distribution_total(&ability.effect);
    let targets = flatten_targets_in_chain(&ability);
    trigger.ability = ability;
    if let (Some(unit), Some(total)) = (trigger.distribute, total) {
        if targets.len() == 1 {
            trigger.ability.distribution = Some(List::one((targets[0], total)));
        } else {
            state.waiting_for = WaitingFor::DistributeAmong {
                player: trigger.controller,
                total,
                targets: List::from_vec(targets),
                unit,
            };
            state.pending_trigger_event_batch = trigger_events;
            state.pending_trigger = Some(trigger);
            return true;
        }
    }
    push_pending_trigger_to_stack_with_event_batch(state, trigger, trigger_events, events);
    false
}

fn place_slotted(
    state: &mut GameState,
    trigger: PendingTrigger,
    slots: &Vec<TargetSlot>,
    trigger_events: List<GameEvent>,
    events: &mut Vec<GameEvent>,
) -> (stopped: bool)
    ensures
        final(state)@ == slotted_placed(old(state)@, trigger, slots@, trigger_events).game,
        stopped == slotted_placed(old(state)@, trigger, slots@, trigger_events).stopped,
{
    // CR 115.1 + CR 701.9b: Random-target triggered abilities short-circuit
    // to RNG-driven selection. Falls back to controller-choice degenerate
    // auto-select otherwise.
    let choice = if trigger.ability.target_selection_mode == TargetSelectionMode::Random {
        random_select_targets(state, slots, &trigger.target_constraints)
    } else {
        auto_select_targets(slots, &trigger.target_constraints)
    };
    match choice {
        Ok(Some(choices)) => {
            let ability = assign_targets_in_chain(state, &trigger.ability, false, &choices, 0);
            place_targeted(state, trigger, ability, trigger_events, events)
        },
        Ok(None) => {
            state.pending_trigger_event_batch = trigger_events;
            state.pending_trigger = Some(trigger);
            true
        },
        Err(_) => false,
    }
}

fn place_one(
    state: &mut GameState,
    context: &PendingTriggerContext,
    events: &mut Vec<GameEvent>,
) -> (stopped: bool)
    ensures
        final(state)@ == one_placed(old(state)@, *context).game,
        stopped == one_placed(old(state)@, *context).stopped,
{
    proof {
        reveal(one_placed);
    }
    let trigger = context.pending.clone();
    let trigger_events = context.trigger_events.clone();
    // CR 700.2b: Modal triggered ability: set aside for mode selection.
    if check_modal(&trigger) {
        state.pending_trigger_event_batch = trigger_events;
        state.pending_trigger = Some(trigger);
        return true;
    }
    let slots = match build_target_slots(state, &trigger.ability) {
        Err(_) => {
            return false;
        },
        Ok(slots) => slots,
    };
    if slots.len() == 0 {
        // CR 605.1b: Triggered mana abilities don't use the stack.
        if is_triggered_mana_ability(&trigger.ability, trigger.trigger_event.as_ref()) {
            resolve_triggered_mana_ability_inline(
                state,
                &trigger.ability,
                trigger.trigger_event.as_ref(),
            );
        } else {
            push_pending_trigger_to_stack_with_event_batch(state, trigger, trigger_events, events);
        }
        return false;
    }
    place_slotted(state, trigger, &slots, trigger_events, events)
}

/// What becomes of the first `n` triggers. Once one waits for a decision, the rest are left.
pub open spec fn placed(g: Game, order: Seq<PendingTriggerContext>, n: nat) -> Placed
    decreases n,
{
    if n == 0 {
        Placed { game: g, stopped: false }
    } else {
        let before = placed(g, order, (n - 1) as nat);
        if before.stopped {
            before
        } else {
            one_placed(before.game, order[n - 1])
        }
    }
}

proof fn lemma_stopped(g: Game, order: Seq<PendingTriggerContext>, n: nat, m: nat)
    requires
        n <= m,
        placed(g, order, n).stopped,
    ensures
        placed(g, order, m) == placed(g, order, n),
    decreases m,
{
    if n < m {
        lemma_stopped(g, order, n, (m - 1) as nat);
    }
}

/// Putting triggers on the stack moves no permanent and removes no one.
pub proof fn law_placing_keeps_table(g: Game, order: Seq<PendingTriggerContext>, n: nat)
    ensures
        same_table(g, placed(g, order, n).game),
    decreases n,
{
    if n > 0 {
        law_placing_keeps_table(g, order, (n - 1) as nat);
        let before = placed(g, order, (n - 1) as nat).game;
        assert(same_table(before, one_placed(before, order[n - 1]).game)) by {
            reveal(one_placed);
            reveal(pushed);
        }
    }
}

/// Places triggers in the given order, and says whether one of them waits for a decision.
pub fn place_triggers(
    state: &mut GameState,
    order: &Vec<PendingTriggerContext>,
    events: &mut Vec<GameEvent>,
) -> (stopped: bool)
    ensures
        final(state)@ == placed(old(state)@, order@, order@.len()).game,
        stopped == placed(old(state)@, order@, order@.len()).stopped,
{
    let mut i: usize = 0;
    while i < order.len()
        invariant
            i <= order@.len(),
            state@ == placed(old(state)@, order@, i as nat).game,
            !placed(old(state)@, order@, i as nat).stopped,
        decreases order@.len() - i,
    {
        let stopped: bool = place_one(state, &order[i], events);
        i = i + 1;
        if stopped {
            proof {
                lemma_stopped(old(state)@, order@, i as nat, order@.len());
            }
            return true;
        }
    }
    false
}

} // verus!
