//! Triggers that wait for no event of the moment: state triggers (CR 603.8) and delayed triggers
//! (CR 603.7).

use crate::ability::{
    AbilityDefinition, AbilityKind, DelayedTriggerCondition, Effect, ResolvedAbility, TargetFilter,
    TriggerDefinition, TriggerMode,
};
use crate::events::GameEvent;
use crate::filter::{matches_target_filter, object_matches, FilterContext};
use crate::functioning::{active_trigger_definitions, active_triggers};
use crate::ids::{ObjectId, PlayerId, Zone};
use crate::list::{copy_rc, list_of, List};
use crate::matchers::{matches_trigger, trigger_matches};
use crate::object::GameObject;
use crate::state::{DelayedTrigger, Game, GameState, StackEntry, StackEntryKind};
use crate::targeting::{build_resolved_from_def, resolved_from};
use crate::text::{copy_text, Text};
use crate::triggers::collect::next_index;
use crate::triggers::conditions::{check_trigger_condition, condition_holds};
use crate::triggers::keywords::{entry_turn, find_entry_turn};
use crate::triggers::order::{order_for_stack, stack_order};
use crate::triggers::placing::{push_pending_trigger_to_stack, trigger_pushed};
use crate::triggers::PendingTrigger;
use vstd::prelude::*;

verus! {

/// Whether an entry of the stack is the ability of the state trigger that stands at `idx` among
/// the triggers of an object. No event set it off, and it carries the place of its trigger.
pub open spec fn is_state_ability(entry: StackEntry, id: ObjectId, idx: usize) -> bool {
    &&& entry.source_id == id
    &&& match entry.kind {
        StackEntryKind::TriggeredAbility { ability, trigger_event, .. } => trigger_event is None
            && ability.ability_index == Some(idx),
        _ => false,
    }
}

fn check_state_ability(entry: &StackEntry, id: ObjectId, idx: usize) -> (r: bool)
    ensures
        r == is_state_ability(*entry, id, idx),
{
    entry.source_id == id && match &entry.kind {
        StackEntryKind::TriggeredAbility { ability, trigger_event, .. } => trigger_event.is_none()
            && match ability.ability_index {
            Some(i) => i == idx,
            None => false,
        },
        _ => false,
    }
}

/// Whether the ability of a state trigger is on the stack. Other abilities of the object do not
/// count.
pub open spec fn waits_on_stack(g: Game, id: ObjectId, idx: usize) -> bool {
    exists|i: int| 0 <= i < g.stack.len() && is_state_ability(#[trigger] g.stack[i], id, idx)
}

fn check_waits_on_stack(state: &GameState, id: ObjectId, idx: usize) -> (r: bool)
    ensures
        r == waits_on_stack(state@, id, idx),
{
    let mut i: usize = 0;
    while i < state.stack.len()
        invariant
            i <= state.stack@.len(),
            forall|j: int| 0 <= j < i ==> !is_state_ability(#[trigger] state@.stack[j], id, idx),
        decreases state.stack@.len() - i,
    {
        if check_state_ability(&state.stack[i], id, idx) {
            assert(is_state_ability(state@.stack[i as int], id, idx));
            return true;
        }
        i = i + 1;
    }
    false
}

/// Whether the condition of a state trigger holds now.
pub open spec fn state_condition_holds(
    g: Game,
    id: ObjectId,
    o: GameObject,
    def: TriggerDefinition,
) -> bool {
    &&& def.mode == TriggerMode::StateCondition
    &&& match def.condition {
        None => false,
        Some(c) => condition_holds(g, *c, o.controller, Some(id), None),
    }
}

/// Whether the state trigger that stands at `idx` among a permanent's triggers fires: its
/// condition holds, and its own ability is not on the stack already (CR 603.8).
pub open spec fn state_trigger_fires(
    g: Game,
    id: ObjectId,
    o: GameObject,
    def: TriggerDefinition,
    idx: usize,
) -> bool {
    state_condition_holds(g, id, o, def) && !waits_on_stack(g, id, idx)
}

/// What a state trigger does; one that prints no effect does nothing.
pub open spec fn state_effect(def: TriggerDefinition) -> AbilityDefinition {
    match def.execute {
        Some(execute) => *execute,
        None => AbilityDefinition::plain(
            AbilityKind::Spell,
            Effect::Unimplemented {
                name: Text::Literal("state trigger"),
                description: def.description,
            },
        ),
    }
}

/// A state trigger as it fires. Its ability carries the place of the trigger, so that it can be
/// told from the other abilities of the permanent.
pub open spec fn state_trigger(id: ObjectId, o: GameObject, def: TriggerDefinition, idx: usize) ->
    PendingTrigger {
    PendingTrigger {
        source_id: id,
        controller: o.controller,
        condition: def.condition,
        ability: ResolvedAbility {
            ability_index: Some(idx),
            ..resolved_from(state_effect(def), id, o.controller)
        },
        timestamp: entry_turn(o),
        target_constraints: list_of(seq![]),
        distribute: match def.execute {
            None => None,
            Some(execute) => execute.distribute,
        },
        trigger_event: None,
        modal: None,
        mode_abilities: None,
        description: def.description,
        may_trigger_origin: None,
    }
}

fn build_state_trigger(
    id: ObjectId,
    o: &GameObject,
    def: &TriggerDefinition,
    idx: usize,
) -> (r: PendingTrigger)
    ensures
        r == state_trigger(id, *o, *def, idx),
{
    let mut ability = match &def.execute {
        Some(execute) => build_resolved_from_def(execute, id, o.controller),
        None => build_resolved_from_def(
            &AbilityDefinition::new(
                AbilityKind::Spell,
                Effect::Unimplemented {
                    name: Text::Literal("state trigger"),
                    description: copy_text(&def.description),
                },
            ),
            id,
            o.controller,
        ),
    };
    ability.ability_index = Some(idx);
    PendingTrigger {
        source_id: id,
        controller: o.controller,
        condition: copy_rc(&def.condition),
        ability,
        timestamp: find_entry_turn(o),
        target_constraints: List::new(),
        distribute: match &def.execute {
            None => None,
            Some(execute) => execute.distribute,
        },
        trigger_event: None,
        modal: None,
        mode_abilities: None,
        description: copy_text(&def.description),
        may_trigger_origin: None,
    }
}

/// The state triggers of a permanent that fire, of those that stand from `idx` on.
pub open spec fn state_triggers_of(
    g: Game,
    id: ObjectId,
    o: GameObject,
    defs: List<TriggerDefinition>,
    idx: usize,
) -> Seq<PendingTrigger>
    decreases defs,
{
    match defs.node {
        None => seq![],
        Some(n) => {
            let rest = state_triggers_of(g, id, o, n.rest, next_index(idx));
            if state_trigger_fires(g, id, o, *n.item, idx) {
                seq![state_trigger(id, o, *n.item, idx)] + rest
            } else {
                rest
            }
        },
    }
}

fn push_state_triggers_of(
    state: &GameState,
    id: ObjectId,
    o: &GameObject,
    defs: &List<TriggerDefinition>,
    idx: usize,
    pending: &mut Vec<PendingTrigger>,
)
    ensures
        final(pending)@ == old(pending)@ + state_triggers_of(state@, id, *o, *defs, idx),
    decreases defs,
{
    match &defs.node {
        None => {},
        Some(n) => {
            // CR 603.8: Don't re-trigger if this state trigger is already on the stack.
            let fires: bool = n.item.mode == TriggerMode::StateCondition && !check_waits_on_stack(
                state,
                id,
                idx,
            ) && match &n.item.condition {
                None => false,
                Some(c) => check_trigger_condition(state, c, o.controller, Some(id), None),
            };
            if fires {
                pending.push(build_state_trigger(id, o, &n.item, idx));
            }
            let next: usize = if idx == usize::MAX {
                idx
            } else {
                idx + 1
            };
            push_state_triggers_of(state, id, o, &n.rest, next, pending);
        },
    }
    assert(pending@ =~= old(pending)@ + state_triggers_of(state@, id, *o, *defs, idx));
}

/// The state triggers of the first `n` permanents that fire.
pub open spec fn state_triggers(g: Game, n: nat) -> Seq<PendingTrigger>
    decreases n,
{
    if n == 0 {
        seq![]
    } else {
        let id = g.battlefield[n - 1];
        let before = state_triggers(g, (n - 1) as nat);
        match g.object(id) {
            None => before,
            Some(o) => if o.zone == Zone::Battlefield {
                before + state_triggers_of(g, id, o, active_triggers(o), 0)
            } else {
                before
            },
        }
    }
}

/// The game after the first `n` of some triggers have been put on the stack.
pub open spec fn all_pushed(g: Game, order: Seq<PendingTrigger>, n: nat) -> Game
    decreases n,
{
    if n == 0 {
        g
    } else {
        trigger_pushed(all_pushed(g, order, (n - 1) as nat), order[n - 1])
    }
}

/// The events that tell of it.
pub open spec fn push_events(g: Game, order: Seq<PendingTrigger>, n: nat) -> Seq<GameEvent>
    decreases n,
{
    if n == 0 {
        seq![]
    } else {
        push_events(g, order, (n - 1) as nat).push(
            GameEvent::StackPushed {
                object_id: ObjectId(all_pushed(g, order, (n - 1) as nat).next_object_id),
            },
        )
    }
}

fn push_all_triggers(
    state: &mut GameState,
    order: &Vec<PendingTrigger>,
    events: &mut Vec<GameEvent>,
)
    ensures
        final(state)@ == all_pushed(old(state)@, order@, order@.len()),
        final(events)@ == old(events)@ + push_events(old(state)@, order@, order@.len()),
{
    let mut i: usize = 0;
    assert(events@ =~= old(events)@ + push_events(old(state)@, order@, 0));
    while i < order.len()
        invariant
            i <= order@.len(),
            state@ == all_pushed(old(state)@, order@, i as nat),
            events@ == old(events)@ + push_events(old(state)@, order@, i as nat),
        decreases order@.len() - i,
    {
        push_pending_trigger_to_stack(state, order[i].clone(), events);
        i = i + 1;
        assert(events@ =~= old(events)@ + push_events(old(state)@, order@, i as nat));
    }
}

/// The game after its state triggers have been checked.
pub open spec fn state_triggers_checked(g: Game) -> Game {
    let order = stack_order(g.active_player, state_triggers(g, g.battlefield.len()));
    all_pushed(g, order, order.len())
}

/// CR 603.8: Check state triggers for all permanents on the battlefield.
/// State triggers fire when a game-state condition is true, rather than in response
/// to events. A state trigger doesn't trigger again until its ability has resolved,
/// been countered, or otherwise left the stack.
///
/// CR 702.26b: Phased-out permanents are treated as though they don't exist:
/// their state triggers don't fire.
pub fn check_state_triggers(state: &mut GameState)
    ensures
        final(state)@ == state_triggers_checked(old(state)@),
{
    let mut pending: Vec<PendingTrigger> = Vec::new();
    let mut i: usize = 0;
    assert(pending@ =~= state_triggers(state@, 0));
    while i < state.battlefield.len()
        invariant
            i <= state.battlefield@.len(),
            *state == *old(state),
            pending@ == state_triggers(state@, i as nat),
        decreases state.battlefield@.len() - i,
    {
        let id = state.battlefield[i];
        if let Some(o) = state.objects.get(&id) {
            if o.zone == Zone::Battlefield {
                let defs = active_trigger_definitions(o);
                push_state_triggers_of(state, id, o, &defs, 0, &mut pending);
            }
        }
        i = i + 1;
    }
    // CR 603.3b: APNAP ordering for state triggers.
    let order = order_for_stack(state.active_player, pending);
    let mut events_out: Vec<GameEvent> = Vec::new();
    push_all_triggers(state, &order, &mut events_out);
}

/// Whether an event moved an object, from and to the zones asked for, that a filter lets through
/// as it is now.
pub open spec fn zone_change_fits(
    g: Game,
    event: GameEvent,
    source_id: ObjectId,
    controller: PlayerId,
    from: Option<Zone>,
    to: Option<Zone>,
    f: TargetFilter,
) -> bool {
    match event {
        GameEvent::ZoneChanged { object_id, from: left, to: reached, .. } => {
            &&& from is None || left == from
            &&& to is None || Some(reached) == to
            &&& object_matches(
                g,
                object_id,
                f,
                FilterContext { source_id, controller: Some(controller), trigger_object: None },
            )
        },
        _ => false,
    }
}

fn check_zone_change(
    state: &GameState,
    event: &GameEvent,
    source_id: ObjectId,
    controller: PlayerId,
    from: Option<Zone>,
    to: Option<Zone>,
    f: &TargetFilter,
) -> (r: bool)
    ensures
        r == zone_change_fits(state@, *event, source_id, controller, from, to, *f),
{
    match event {
        GameEvent::ZoneChanged { object_id, from: left, to: reached, .. } => (from.is_none()
            || *left == from) && (to.is_none() || Some(*reached) == to) && matches_target_filter(
            state,
            *object_id,
            f,
            &FilterContext::from_source_with_controller(source_id, controller),
        ),
        _ => false,
    }
}

/// Whether an event is the one that a delayed trigger waits for.
pub open spec fn delayed_fits(
    g: Game,
    condition: DelayedTriggerCondition,
    event: GameEvent,
    source_id: ObjectId,
    controller: PlayerId,
) -> bool {
    match condition {
        DelayedTriggerCondition::AtNextPhase { phase } => event == (GameEvent::PhaseChanged {
            phase,
        }),
        DelayedTriggerCondition::AtNextPhaseForPlayer { phase, player } => g.active_player == player
            && event == (GameEvent::PhaseChanged { phase }),
        DelayedTriggerCondition::WhenLeavesPlay { object_id } =>
            event matches GameEvent::ZoneChanged { object_id: moved, from, .. } && moved
                == object_id && from == Some(Zone::Battlefield),
        DelayedTriggerCondition::WhenDies { filter } => zone_change_fits(
            g,
            event,
            source_id,
            controller,
            Some(Zone::Battlefield),
            Some(Zone::Graveyard),
            filter,
        ),
        DelayedTriggerCondition::WhenLeavesPlayFiltered { filter } => zone_change_fits(
            g,
            event,
            source_id,
            controller,
            Some(Zone::Battlefield),
            None,
            filter,
        ),
        DelayedTriggerCondition::WhenEntersBattlefield { filter } => zone_change_fits(
            g,
            event,
            source_id,
            controller,
            None,
            Some(Zone::Battlefield),
            filter,
        ),
        DelayedTriggerCondition::WhenDiesOrExiled { filter } => zone_change_fits(
            g,
            event,
            source_id,
            controller,
            Some(Zone::Battlefield),
            Some(Zone::Graveyard),
            filter,
        ) || zone_change_fits(
            g,
            event,
            source_id,
            controller,
            Some(Zone::Battlefield),
            Some(Zone::Exile),
            filter,
        ),
        DelayedTriggerCondition::WheneverEvent { trigger } => trigger_matches(
            g,
            event,
            *trigger,
            source_id,
        ),
        DelayedTriggerCondition::WhenNextEvent { trigger } => trigger_matches(
            g,
            event,
            *trigger,
            source_id,
        ),
    }
}

fn check_delayed_fits(
    condition: &DelayedTriggerCondition,
    event: &GameEvent,
    state: &GameState,
    source_id: ObjectId,
    controller: PlayerId,
) -> (r: bool)
    ensures
        r == delayed_fits(state@, *condition, *event, source_id, controller),
{
    match condition {
        DelayedTriggerCondition::AtNextPhase { phase } => match event {
            GameEvent::PhaseChanged { phase: p } => *p == *phase,
            _ => false,
        },
        DelayedTriggerCondition::AtNextPhaseForPlayer { phase, player } => state.active_player
            == *player && match event {
            GameEvent::PhaseChanged { phase: p } => *p == *phase,
            _ => false,
        },
        DelayedTriggerCondition::WhenLeavesPlay { object_id } => match event {
            GameEvent::ZoneChanged { object_id: moved, from, .. } => *moved == *object_id && *from
                == Some(Zone::Battlefield),
            _ => false,
        },
        // CR 603.7c: "when [object] dies": zone change to graveyard from battlefield
        DelayedTriggerCondition::WhenDies { filter } => check_zone_change(
            state,
            event,
            source_id,
            controller,
            Some(Zone::Battlefield),
            Some(Zone::Graveyard),
            filter,
        ),
        // CR 603.7c: "when [object] leaves the battlefield": any zone change from battlefield
        DelayedTriggerCondition::WhenLeavesPlayFiltered { filter } => check_zone_change(
            state,
            event,
            source_id,
            controller,
            Some(Zone::Battlefield),
            None,
            filter,
        ),
        // CR 603.7c: "when [object] enters the battlefield": zone change to battlefield
        DelayedTriggerCondition::WhenEntersBattlefield { filter } => check_zone_change(
            state,
            event,
            source_id,
            controller,
            None,
            Some(Zone::Battlefield),
            filter,
        ),
        // "when [object] dies or is exiled"
        DelayedTriggerCondition::WhenDiesOrExiled { filter } => check_zone_change(
            state,
            event,
            source_id,
            controller,
            Some(Zone::Battlefield),
            Some(Zone::Graveyard),
            filter,
        ) || check_zone_change(
            state,
            event,
            source_id,
            controller,
            Some(Zone::Battlefield),
            Some(Zone::Exile),
            filter,
        ),
        // CR 603.7c: "Whenever [event] this turn"
        DelayedTriggerCondition::WheneverEvent { trigger } => matches_trigger(
            event,
            trigger,
            source_id,
            state,
        ),
        DelayedTriggerCondition::WhenNextEvent { trigger } => matches_trigger(
            event,
            trigger,
            source_id,
            state,
        ),
    }
}

/// The first of the events, from `at` on, that a delayed trigger waits for.
pub open spec fn delayed_event(
    g: Game,
    condition: DelayedTriggerCondition,
    events: Seq<GameEvent>,
    source_id: ObjectId,
    controller: PlayerId,
    at: nat,
) -> Option<GameEvent>
    decreases events.len() - at,
{
    if at >= events.len() {
        None
    } else if delayed_fits(g, condition, events[at as int], source_id, controller) {
        Some(events[at as int])
    } else {
        delayed_event(g, condition, events, source_id, controller, at + 1)
    }
}

/// CR 603.7: Check if a delayed trigger condition is met by recent events.
pub fn delayed_trigger_event(
    condition: &DelayedTriggerCondition,
    events: &[GameEvent],
    state: &GameState,
    source_id: ObjectId,
    controller: PlayerId,
) -> (r: Option<GameEvent>)
    ensures
        r == delayed_event(state@, *condition, events@, source_id, controller, 0),
{
    let mut i: usize = 0;
    while i < events.len()
        invariant
            i <= events@.len(),
            delayed_event(state@, *condition, events@, source_id, controller, 0) == delayed_event(
                state@,
                *condition,
                events@,
                source_id,
                controller,
                i as nat,
            ),
        decreases events@.len() - i,
    {
        if check_delayed_fits(condition, &events[i], state, source_id, controller) {
            return Some(events[i].clone());
        }
        i = i + 1;
    }
    None
}

/// The event that sets off the delayed trigger at an index, where one does.
pub open spec fn set_off_by(g: Game, events: Seq<GameEvent>, i: int) -> Option<GameEvent> {
    let delayed = g.delayed_triggers[i];
    delayed_event(g, delayed.condition, events, delayed.source_id, delayed.controller, 0)
}

/// A delayed trigger that goes off on an event.
pub open spec fn delayed_pending(g: Game, delayed: DelayedTrigger, event: GameEvent) ->
    PendingTrigger {
    PendingTrigger {
        source_id: delayed.source_id,
        controller: delayed.controller,
        condition: None,
        ability: delayed.ability,
        timestamp: g.turn_number,
        target_constraints: list_of(seq![]),
        distribute: None,
        trigger_event: Some(event),
        modal: None,
        mode_abilities: None,
        description: None,
        may_trigger_origin: None,
    }
}

fn build_delayed_pending(state: &GameState, delayed: &DelayedTrigger, event: &GameEvent) -> (r:
    PendingTrigger)
    ensures
        r == delayed_pending(state@, *delayed, *event),
{
    PendingTrigger {
        source_id: delayed.source_id,
        controller: delayed.controller,
        condition: None,
        ability: delayed.ability.clone(),
        timestamp: state.turn_number,
        target_constraints: List::new(),
        distribute: None,
        trigger_event: Some(event.clone()),
        modal: None,
        mode_abilities: None,
        description: None,
        may_trigger_origin: None,
    }
}

/// Those of the first `n` delayed triggers that go off and stay, in order.
pub open spec fn lasting_fired(g: Game, events: Seq<GameEvent>, n: nat) -> Seq<PendingTrigger>
    decreases n,
{
    if n == 0 {
        seq![]
    } else {
        let before = lasting_fired(g, events, (n - 1) as nat);
        match set_off_by(g, events, n - 1) {
            Some(e) => if g.delayed_triggers[n - 1].one_shot {
                before
            } else {
                before.push(delayed_pending(g, g.delayed_triggers[n - 1], e))
            },
            None => before,
        }
    }
}

/// Those of the first `n` delayed triggers that go off once and for all, the last one first.
pub open spec fn one_shot_fired(g: Game, events: Seq<GameEvent>, n: nat) -> Seq<PendingTrigger>
    decreases n,
{
    if n == 0 {
        seq![]
    } else {
        let before = one_shot_fired(g, events, (n - 1) as nat);
        match set_off_by(g, events, n - 1) {
            Some(e) => if g.delayed_triggers[n - 1].one_shot {
                seq![delayed_pending(g, g.delayed_triggers[n - 1], e)] + before
            } else {
                before
            },
            None => before,
        }
    }
}

/// Those of the first `n` delayed triggers that stay.
pub open spec fn delayed_kept(g: Game, events: Seq<GameEvent>, n: nat) -> Seq<DelayedTrigger>
    decreases n,
{
    if n == 0 {
        seq![]
    } else {
        let before = delayed_kept(g, events, (n - 1) as nat);
        if g.delayed_triggers[n - 1].one_shot && set_off_by(g, events, n - 1) is Some {
            before
        } else {
            before.push(g.delayed_triggers[n - 1])
        }
    }
}

/// The delayed triggers that go off, in the order in which they go on the stack.
pub open spec fn delayed_order(g: Game, events: Seq<GameEvent>) -> Seq<PendingTrigger> {
    let n = g.delayed_triggers.len();
    stack_order(g.active_player, lasting_fired(g, events, n) + one_shot_fired(g, events, n))
}

/// The game without the delayed triggers that have gone off once and for all.
pub open spec fn without_spent(g: Game, events: Seq<GameEvent>) -> Game {
    Game { delayed_triggers: delayed_kept(g, events, g.delayed_triggers.len()), ..g }
}

/// The events that set off the delayed triggers, one by one.
fn find_set_off(state: &GameState, events: &[GameEvent]) -> (r: Vec<Option<GameEvent>>)
    ensures
        r@.len() == state@.delayed_triggers.len(),
        forall|i: int| 0 <= i < r@.len() ==> #[trigger] r@[i] == set_off_by(state@, events@, i),
{
    let mut out: Vec<Option<GameEvent>> = Vec::new();
    let mut i: usize = 0;
    while i < state.delayed_triggers.len()
        invariant
            i <= state.delayed_triggers@.len(),
            out@.len() == i,
            forall|j: int| 0 <= j < i ==> #[trigger] out@[j] == set_off_by(state@, events@, j),
        decreases state.delayed_triggers@.len() - i,
    {
        let delayed = &state.delayed_triggers[i];
        out.push(
            delayed_trigger_event(
                &delayed.condition,
                events,
                state,
                delayed.source_id,
                delayed.controller,
            ),
        );
        i = i + 1;
    }
    out
}

fn collect_fired(
    state: &GameState,
    events: &[GameEvent],
    set_off: &Vec<Option<GameEvent>>,
) -> (r: Vec<PendingTrigger>)
    requires
        set_off@.len() == state@.delayed_triggers.len(),
        forall|i: int|
            0 <= i < set_off@.len() ==> #[trigger] set_off@[i] == set_off_by(state@, events@, i),
    ensures
        r@ == lasting_fired(state@, events@, state@.delayed_triggers.len()) + one_shot_fired(
            state@,
            events@,
            state@.delayed_triggers.len(),
        ),
{
    let mut lasting: Vec<PendingTrigger> = Vec::new();
    let mut one_shot: Vec<PendingTrigger> = Vec::new();
    let mut i: usize = 0;
    assert(one_shot@ =~= one_shot_fired(state@, events@, 0));
    while i < state.delayed_triggers.len()
        invariant
            i <= state.delayed_triggers@.len(),
            set_off@.len() == state.delayed_triggers@.len(),
            forall|j: int|
                0 <= j < set_off@.len() ==> #[trigger] set_off@[j] == set_off_by(
                    state@,
                    events@,
                    j,
                ),
            lasting@ == lasting_fired(state@, events@, i as nat),
            one_shot@ == one_shot_fired(state@, events@, i as nat),
        decreases state.delayed_triggers@.len() - i,
    {
        let delayed = &state.delayed_triggers[i];
        if let Some(event) = &set_off[i] {
            let trigger = build_delayed_pending(state, delayed, event);
            if delayed.one_shot {
                one_shot.insert(0, trigger);
            } else {
                lasting.push(trigger);
            }
        }
        i = i + 1;
        assert(one_shot@ =~= one_shot_fired(state@, events@, i as nat));
    }
    lasting.append(&mut one_shot);
    lasting
}

fn drop_spent(state: &mut GameState, events: &[GameEvent], set_off: &Vec<Option<GameEvent>>)
    requires
        set_off@.len() == old(state)@.delayed_triggers.len(),
        forall|i: int|
            0 <= i < set_off@.len() ==> #[trigger] set_off@[i] == set_off_by(
                old(state)@,
                events@,
                i,
            ),
    ensures
        final(state)@ == without_spent(old(state)@, events@),
{
    let ghost all = state@.delayed_triggers;
    let mut kept: Vec<DelayedTrigger> = Vec::new();
    let total: usize = state.delayed_triggers.len();
    let mut i: usize = 0;
    while i < total
        invariant
            i <= total,
            total == all.len(),
            all == old(state)@.delayed_triggers,
            set_off@.len() == all.len(),
            forall|j: int|
                0 <= j < set_off@.len() ==> #[trigger] set_off@[j] == set_off_by(
                    old(state)@,
                    events@,
                    j,
                ),
            state@ == (Game { delayed_triggers: all.skip(i as int), ..old(state)@ }),
            kept@ == delayed_kept(old(state)@, events@, i as nat),
        decreases total - i,
    {
        let delayed = state.delayed_triggers.remove(0);
        assert(delayed == all[i as int]);
        assert(state@.delayed_triggers =~= all.skip(i + 1));
        if !(delayed.one_shot && set_off[i].is_some()) {
            kept.push(delayed);
        }
        i = i + 1;
    }
    state.delayed_triggers = kept;
}

/// CR 603.7: Check if any delayed triggers should fire based on recent events.
/// One-shot triggers are removed after firing; multi-fire (WheneverEvent) triggers
/// persist until end-of-turn cleanup (CR 603.7c).
pub fn check_delayed_triggers(state: &mut GameState, events: &[GameEvent]) -> (r: Vec<GameEvent>)
    ensures
        final(state)@ == all_pushed(
            without_spent(old(state)@, events@),
            delayed_order(old(state)@, events@),
            delayed_order(old(state)@, events@).len(),
        ),
        r@ == push_events(
            without_spent(old(state)@, events@),
            delayed_order(old(state)@, events@),
            delayed_order(old(state)@, events@).len(),
        ),
{
    let set_off = find_set_off(state, events);
    let fired = collect_fired(state, events, &set_off);
    drop_spent(state, events, &set_off);
    // CR 603.3b: APNAP ordering: active player's triggers go on stack last (resolve first).
    let order = order_for_stack(state.active_player, fired);
    let mut new_events: Vec<GameEvent> = Vec::new();
    push_all_triggers(state, &order, &mut new_events);
    assert(new_events@ =~= push_events(
        without_spent(old(state)@, events@),
        delayed_order(old(state)@, events@),
        delayed_order(old(state)@, events@).len(),
    ));
    new_events
}

} // verus!
