//! Which triggered abilities of an object an event sets off.

use crate::ability::{
    Effect, MayTriggerOrigin, ResolvedAbility, SpellContext, StaticDefinition, StaticMode,
    SuppressedTriggerEvent, TriggerConstraint, TriggerDefinition, TriggerMode,
};
use crate::events::{GameEvent, ZoneChangeRecord};
use crate::filter::{
    matches_target_filter_on_zone_change_record, record_subject, source_context, subject_matches,
    FilterContext,
};
use crate::functioning::{
    active_trigger_definitions, active_triggers, is_static_active, static_applies,
};
use crate::ids::{ObjectId, PlayerId, Zone};
use crate::list::{copy_rc, list_of, List};
use crate::matchers::{attack_events, matches_trigger, matching_attack_events, trigger_matches};
use crate::object::GameObject;
use crate::state::{Game, GameState};
use crate::targeting::{build_resolved_from_def, resolved_from};
use crate::text::{copy_text, Text};
use crate::triggers::conditions::{
    check_trigger_condition, check_trigger_constraint, condition_holds, constraint_allows,
    holds_key,
};
use crate::triggers::PendingTrigger;
use std::rc::Rc;
use vstd::prelude::*;

verus! {

/// A triggered ability of an object that an event has set off.
#[derive(Debug, PartialEq, Eq)]
pub struct MatchedTrigger {
    pub trig_idx: usize,
    pub pending: PendingTrigger,
    pub trigger_events: List<GameEvent>,
    pub batched: bool,
    pub constraint: Option<Rc<TriggerConstraint>>,
}

/// A pending trigger with all the events that set it off.
#[derive(Debug, PartialEq, Eq)]
pub struct PendingTriggerContext {
    pub pending: PendingTrigger,
    pub trigger_events: List<GameEvent>,
}

impl Clone for PendingTriggerContext {
    fn clone(&self) -> (r: Self)
        ensures
            r == *self,
    {
        PendingTriggerContext {
            pending: self.pending.clone(),
            trigger_events: self.trigger_events.clone(),
        }
    }
}

/// The one event of a trigger, where it has one.
pub open spec fn own_event(pending: PendingTrigger) -> List<GameEvent> {
    match pending.trigger_event {
        None => list_of(seq![]),
        Some(e) => list_of(seq![e]),
    }
}

pub fn list_own_event(pending: &PendingTrigger) -> (r: List<GameEvent>)
    ensures
        r == own_event(*pending),
{
    match &pending.trigger_event {
        None => List::new(),
        Some(e) => List::one(e.clone()),
    }
}

pub open spec fn single_context(pending: PendingTrigger) -> PendingTriggerContext {
    PendingTriggerContext { pending, trigger_events: own_event(pending) }
}

impl PendingTriggerContext {
    pub fn single(pending: PendingTrigger) -> (r: Self)
        ensures
            r == single_context(pending),
    {
        let trigger_events = list_own_event(&pending);
        PendingTriggerContext { pending, trigger_events }
    }

    pub fn batched(pending: PendingTrigger, trigger_events: List<GameEvent>) -> (r: Self)
        ensures
            r == (PendingTriggerContext { pending, trigger_events }),
    {
        PendingTriggerContext { pending, trigger_events }
    }
}

/// The move behind an event whose triggers a static ability can suppress: an object that
/// entered the battlefield, or died.
pub open spec fn suppressible(event: GameEvent) -> Option<
    (ZoneChangeRecord, SuppressedTriggerEvent),
> {
    match event {
        GameEvent::ZoneChanged { record, from, to, .. } => if to == Zone::Battlefield {
            Some((*record, SuppressedTriggerEvent::EntersBattlefield))
        } else if from == Some(Zone::Battlefield) && to == Zone::Graveyard {
            Some((*record, SuppressedTriggerEvent::Dies))
        } else {
            None
        },
        _ => None,
    }
}

/// Whether one of an object's static abilities suppresses the triggers of such a move.
pub open spec fn statics_suppress(
    g: Game,
    o: GameObject,
    defs: List<StaticDefinition>,
    record: ZoneChangeRecord,
    kind: SuppressedTriggerEvent,
) -> bool
    decreases defs,
{
    match defs.node {
        None => false,
        Some(n) => (static_applies(g, o, *n.item) && match n.item.mode {
            StaticMode::SuppressTriggers { source_filter, events } => events@.contains(kind)
                && subject_matches(
                g,
                record_subject(g, record),
                source_filter,
                source_context(g, o.id),
            ),
            _ => false,
        }) || statics_suppress(g, o, n.rest, record, kind),
    }
}

pub open spec fn permanent_suppresses(
    g: Game,
    id: ObjectId,
    record: ZoneChangeRecord,
    kind: SuppressedTriggerEvent,
) -> bool {
    g.object(id) matches Some(o) && statics_suppress(g, o, o.static_definitions, record, kind)
}

/// Whether a permanent keeps an event from triggering anything.
#[verifier::opaque]
pub open spec fn suppressed(g: Game, event: GameEvent) -> bool {
    suppressible(event) matches Some(found) && exists|i: int|
        0 <= i < g.battlefield.len() && permanent_suppresses(
            g,
            #[trigger] g.battlefield[i],
            found.0,
            found.1,
        )
}

fn find_suppressing_static(
    state: &GameState,
    o: &GameObject,
    defs: &List<StaticDefinition>,
    record: &ZoneChangeRecord,
    kind: SuppressedTriggerEvent,
) -> (r: bool)
    ensures
        r == statics_suppress(state@, *o, *defs, *record, kind),
    decreases defs,
{
    match &defs.node {
        None => false,
        Some(n) => (is_static_active(state, o, &n.item) && match &n.item.mode {
            StaticMode::SuppressTriggers { source_filter, events } => events.contains(&kind)
                && matches_target_filter_on_zone_change_record(
                state,
                record,
                source_filter,
                &FilterContext::from_source(state, o.id),
            ),
            _ => false,
        }) || find_suppressing_static(state, o, &n.rest, record, kind),
    }
}

/// CR 603.2g + CR 603.6a + CR 700.4: Check whether an event's trigger-firing
/// should be suppressed by any active `SuppressTriggers` static on the battlefield.
///
/// Only matches ZoneChanged events that correspond to ETB (to=Battlefield) or Dies
/// (from=Battlefield, to=Graveyard). The suppression tests the event's *subject*
/// (the entering/dying permanent) against the static's `source_filter`: a creature
/// entering suppresses every ETB trigger in response, including observer triggers on
/// other permanents.
///
/// CR 603.10a: Filter evaluation uses the event's `ZoneChangeRecord` rather than the
/// object as it is now.
pub fn event_is_suppressed_by_static_triggers(state: &GameState, event: &GameEvent) -> (r: bool)
    ensures
        r == suppressed(state@, *event),
{
    proof {
        reveal(suppressed);
    }
    let (record, kind) = match event {
        GameEvent::ZoneChanged { record, from, to, .. } => {
            if *to == Zone::Battlefield {
                (record, SuppressedTriggerEvent::EntersBattlefield)
            } else if *from == Some(Zone::Battlefield) && *to == Zone::Graveyard {
                (record, SuppressedTriggerEvent::Dies)
            } else {
                return false;
            }
        },
        _ => {
            return false;
        },
    };
    let mut i: usize = 0;
    while i < state.battlefield.len()
        invariant
            i <= state.battlefield@.len(),
            suppressible(*event) == Some((**record, kind)),
            forall|j: int|
                0 <= j < i ==> !permanent_suppresses(
                    state@,
                    #[trigger] state@.battlefield[j],
                    **record,
                    kind,
                ),
        decreases state.battlefield@.len() - i,
    {
        let found: bool = match state.objects.get(&state.battlefield[i]) {
            None => false,
            Some(o) => find_suppressing_static(state, o, &o.static_definitions, record, kind),
        };
        if found {
            proof {
                reveal(suppressed);
                assert(permanent_suppresses(state@, state@.battlefield[i as int], **record, kind));
            }
            return true;
        }
        i = i + 1;
    }
    false
}

/// The ability that a trigger of `source_id` puts on the stack.
pub open spec fn triggered_ability(
    g: Game,
    def: TriggerDefinition,
    source_id: ObjectId,
    controller: PlayerId,
) -> ResolvedAbility {
    match def.execute {
        None => ResolvedAbility::plain(
            Effect::Unimplemented { name: Text::Literal("TriggerNoExecute"), description: None },
            seq![],
            source_id,
            controller,
        ),
        Some(execute) => {
            let printed = resolved_from(*execute, source_id, controller);
            let ability = ResolvedAbility {
                description: if printed.description is None {
                    def.description
                } else {
                    printed.description
                },
                context: match g.object(source_id) {
                    None => printed.context,
                    Some(o) => SpellContext {
                        cast_from_zone: o.cast_from_zone,
                        kickers_paid: o.kickers_paid,
                        additional_cost_paid: o.kickers_paid@.len() > 0,
                    },
                },
                unless_pay: def.unless_pay,
                ..printed
            };
            if def.mode == TriggerMode::Phase {
                ability.with_scoped_player(g.active_player)
            } else {
                ability
            }
        },
    }
}

/// Build a ResolvedAbility from a TriggerDefinition using typed fields.
pub fn build_triggered_ability(
    state: &GameState,
    trig_def: &TriggerDefinition,
    source_id: ObjectId,
    controller: PlayerId,
) -> (r: ResolvedAbility)
    ensures
        r == triggered_ability(state@, *trig_def, source_id, controller),
{
    match &trig_def.execute {
        None => ResolvedAbility::new(
            Effect::Unimplemented { name: Text::Literal("TriggerNoExecute"), description: None },
            Vec::new(),
            source_id,
            controller,
        ),
        Some(execute) => {
            let mut resolved = build_resolved_from_def(execute, source_id, controller);
            // Carry the trigger's description if the execute doesn't have its own.
            if resolved.description.is_none() {
                resolved.description = copy_text(&trig_def.description);
            }
            // CR 702.33d + CR 702.33f: Carry over the zone that the source was cast from and the
            // kicker payments, so that conditions on how it was cast can be evaluated.
            if let Some(obj) = state.objects.get(&source_id) {
                resolved.context.cast_from_zone = obj.cast_from_zone;
                if !obj.kickers_paid.is_empty() {
                    resolved.context.kickers_paid = obj.kickers_paid.clone();
                    resolved.context.additional_cost_paid = true;
                }
            }
            // CR 118.12: Carry unless_pay modifier from trigger definition.
            if trig_def.unless_pay.is_some() {
                resolved.unless_pay = copy_rc(&trig_def.unless_pay);
            }
            // CR 603.2b + CR 102.1: in a phase trigger, "that player" is the active player.
            if trig_def.mode == TriggerMode::Phase {
                resolved.set_scoped_player_recursive(state.active_player);
            }
            resolved
        },
    }
}

/// Whether an event of a batch is one that sets a trigger off.
pub open spec fn sets_off(
    g: Game,
    event: GameEvent,
    def: TriggerDefinition,
    id: ObjectId,
    controller: PlayerId,
) -> bool {
    &&& !suppressed(g, event)
    &&& trigger_matches(g, event, def, id)
    &&& match def.condition {
        None => true,
        Some(c) => condition_holds(g, *c, controller, Some(id), Some(event)),
    }
}

/// Those of the first `n` events of a batch that set a trigger off.
pub open spec fn batch_events(
    g: Game,
    batch: Seq<GameEvent>,
    def: TriggerDefinition,
    id: ObjectId,
    controller: PlayerId,
    n: nat,
) -> Seq<GameEvent>
    decreases n,
{
    if n == 0 {
        seq![]
    } else {
        let before = batch_events(g, batch, def, id, controller, (n - 1) as nat);
        if sets_off(g, batch[n - 1], def, id, controller) {
            before.push(batch[n - 1])
        } else {
            before
        }
    }
}

pub fn matching_batched_trigger_events(
    state: &GameState,
    event_batch: &[GameEvent],
    trig_def: &TriggerDefinition,
    obj_id: ObjectId,
    controller: PlayerId,
) -> (r: Vec<GameEvent>)
    ensures
        r@ == batch_events(
            state@,
            event_batch@,
            *trig_def,
            obj_id,
            controller,
            event_batch@.len(),
        ),
{
    let mut out: Vec<GameEvent> = Vec::new();
    let mut i: usize = 0;
    while i < event_batch.len()
        invariant
            i <= event_batch@.len(),
            out@ == batch_events(state@, event_batch@, *trig_def, obj_id, controller, i as nat),
        decreases event_batch@.len() - i,
    {
        let event = &event_batch[i];
        let counts: bool = !event_is_suppressed_by_static_triggers(state, event)
            && matches_trigger(event, trig_def, obj_id, state) && match &trig_def.condition {
            None => true,
            Some(c) => check_trigger_condition(state, c, controller, Some(obj_id), Some(event)),
        };
        if counts {
            out.push(event.clone());
        }
        i = i + 1;
    }
    out
}

/// Whether a trigger works in the zone that is being looked at. One that names no zones works
/// on the battlefield.
pub open spec fn works_in_zone(def: TriggerDefinition, zone: Option<Zone>) -> bool {
    match zone {
        None => true,
        Some(z) => if def.trigger_zones@.len() == 0 {
            z == Zone::Battlefield
        } else {
            def.trigger_zones@.contains(z)
        },
    }
}

/// Whether a trigger of an object fires on an event: it works in the zone, has not fired
/// already on this event or, if it fires once for a whole batch, in this pass, the event is one
/// that it watches for, and its constraint and its condition let it.
pub open spec fn fires(
    g: Game,
    event: GameEvent,
    o: GameObject,
    def: TriggerDefinition,
    idx: usize,
    zone: Option<Zone>,
    batched: Seq<(ObjectId, usize)>,
    registered: Seq<(ObjectId, usize)>,
) -> bool {
    &&& works_in_zone(def, zone)
    &&& !(def.batched && batched.contains((o.id, idx)))
    &&& !registered.contains((o.id, idx))
    &&& trigger_matches(g, event, def, o.id)
    &&& match def.constraint {
        None => true,
        Some(c) => constraint_allows(g, *c, (o.id, idx), o.controller, event),
    }
    &&& match def.condition {
        None => true,
        Some(c) => condition_holds(g, *c, o.controller, Some(o.id), Some(event)),
    }
}

/// The events that each instance of a trigger goes on the stack with: one instance with all the
/// events of the batch, one for each attacker, or one with the event itself.
pub open spec fn event_groups(
    g: Game,
    event: GameEvent,
    batch: Seq<GameEvent>,
    def: TriggerDefinition,
    id: ObjectId,
    controller: PlayerId,
) -> Seq<List<GameEvent>> {
    if def.batched {
        let events = batch_events(g, batch, def, id, controller, batch.len());
        if events.len() == 0 {
            seq![]
        } else {
            seq![list_of(events)]
        }
    } else if def.mode == TriggerMode::Attacks && def.condition is None {
        let events = attack_events(g, event, def, id);
        Seq::new(events.len(), |i: int| list_of(seq![events[i]]))
    } else {
        seq![list_of(seq![event])]
    }
}

/// A trigger of an object as it fires on the given events.
pub open spec fn matched_trigger(
    g: Game,
    o: GameObject,
    def: TriggerDefinition,
    idx: usize,
    timestamp: u32,
    events: List<GameEvent>,
) -> MatchedTrigger {
    MatchedTrigger {
        trig_idx: idx,
        pending: PendingTrigger {
            source_id: o.id,
            controller: o.controller,
            condition: def.condition,
            ability: ResolvedAbility {
                ability_index: Some(idx),
                ..triggered_ability(g, def, o.id, o.controller)
            },
            timestamp,
            target_constraints: list_of(seq![]),
            distribute: match def.execute {
                None => None,
                Some(execute) => execute.distribute,
            },
            trigger_event: match events.node {
                None => None,
                Some(n) => Some(*n.item),
            },
            modal: match def.execute {
                None => None,
                Some(execute) => execute.modal,
            },
            mode_abilities: match def.execute {
                None => None,
                Some(execute) => execute.mode_abilities,
            },
            description: def.description,
            may_trigger_origin: Some(MayTriggerOrigin::Printed { trigger_index: idx }),
        },
        trigger_events: events,
        batched: def.batched,
        constraint: def.constraint,
    }
}

fn build_matched_trigger(
    state: &GameState,
    o: &GameObject,
    def: &TriggerDefinition,
    idx: usize,
    timestamp: u32,
    events: List<GameEvent>,
) -> (r: MatchedTrigger)
    ensures
        r == matched_trigger(state@, *o, *def, idx, timestamp, events),
{
    let mut ability = build_triggered_ability(state, def, o.id, o.controller);
    // CR 603.4: Stamp the printed-trigger index so per-turn resolution tracking can identify
    // "this ability" at resolution time.
    ability.ability_index = Some(idx);
    MatchedTrigger {
        trig_idx: idx,
        pending: PendingTrigger {
            source_id: o.id,
            controller: o.controller,
            condition: copy_rc(&def.condition),
            ability,
            timestamp,
            target_constraints: List::new(),
            distribute: match &def.execute {
                None => None,
                Some(execute) => execute.distribute,
            },
            trigger_event: match &events.node {
                None => None,
                Some(n) => Some((*n.item).clone()),
            },
            modal: match &def.execute {
                None => None,
                Some(execute) => execute.modal,
            },
            mode_abilities: match &def.execute {
                None => None,
                Some(execute) => match &execute.mode_abilities {
                    None => None,
                    Some(modes) => Some(modes.clone()),
                },
            },
            description: copy_text(&def.description),
            may_trigger_origin: Some(MayTriggerOrigin::Printed { trigger_index: idx }),
        },
        trigger_events: events,
        batched: def.batched,
        constraint: copy_rc(&def.constraint),
    }
}

/// The index behind `idx`. A list too long for its index to be counted keeps the last index.
pub open spec fn next_index(idx: usize) -> usize {
    if idx == usize::MAX {
        idx
    } else {
        (idx + 1) as usize
    }
}

/// What one trigger of an object contributes on an event.
pub open spec fn matched_of(
    g: Game,
    event: GameEvent,
    batch: Seq<GameEvent>,
    o: GameObject,
    def: TriggerDefinition,
    idx: usize,
    timestamp: u32,
    zone: Option<Zone>,
    batched: Seq<(ObjectId, usize)>,
    registered: Seq<(ObjectId, usize)>,
) -> Seq<MatchedTrigger> {
    if fires(g, event, o, def, idx, zone, batched, registered) {
        let groups = event_groups(g, event, batch, def, o.id, o.controller);
        Seq::new(groups.len(), |i: int| matched_trigger(g, o, def, idx, timestamp, groups[i]))
    } else {
        seq![]
    }
}

pub open spec fn matched_from(
    g: Game,
    event: GameEvent,
    batch: Seq<GameEvent>,
    o: GameObject,
    defs: List<TriggerDefinition>,
    idx: usize,
    timestamp: u32,
    zone: Option<Zone>,
    batched: Seq<(ObjectId, usize)>,
    registered: Seq<(ObjectId, usize)>,
) -> Seq<MatchedTrigger>
    decreases defs,
{
    match defs.node {
        None => seq![],
        Some(n) => matched_of(
            g,
            event,
            batch,
            o,
            *n.item,
            idx,
            timestamp,
            zone,
            batched,
            registered,
        ) + matched_from(
            g,
            event,
            batch,
            o,
            n.rest,
            next_index(idx),
            timestamp,
            zone,
            batched,
            registered,
        ),
    }
}

/// The triggers of an object that an event sets off, in printed order.
#[verifier::opaque]
pub open spec fn matched_triggers(
    g: Game,
    event: GameEvent,
    batch: Seq<GameEvent>,
    o: GameObject,
    timestamp: u32,
    zone: Option<Zone>,
    batched: Seq<(ObjectId, usize)>,
    registered: Seq<(ObjectId, usize)>,
) -> Seq<MatchedTrigger> {
    matched_from(
        g,
        event,
        batch,
        o,
        active_triggers(o),
        0,
        timestamp,
        zone,
        batched,
        registered,
    )
}

fn check_zone(def: &TriggerDefinition, zone: Option<Zone>) -> (r: bool)
    ensures
        r == works_in_zone(*def, zone),
{
    match zone {
        None => true,
        Some(z) => if def.trigger_zones.is_empty() {
            z == Zone::Battlefield
        } else {
            def.trigger_zones.contains(&z)
        },
    }
}

fn check_fires(
    state: &GameState,
    event: &GameEvent,
    o: &GameObject,
    def: &TriggerDefinition,
    idx: usize,
    zone: Option<Zone>,
    batched_this_pass: &Vec<(ObjectId, usize)>,
    registered_this_event: &Vec<(ObjectId, usize)>,
) -> (r: bool)
    ensures
        r == fires(
            state@,
            *event,
            *o,
            *def,
            idx,
            zone,
            batched_this_pass@,
            registered_this_event@,
        ),
{
    check_zone(def, zone)
    // CR 603.2c: "One or more" (batched) triggers fire once per batch of simultaneous events.
     && !(def.batched && holds_key(batched_this_pass, (o.id, idx)))
    // CR 603.2 / CR 603.3: A single printed trigger definition fires at most once per event.
     && !holds_key(registered_this_event, (o.id, idx)) && matches_trigger(event, def, o.id, state)
        && check_trigger_constraint(state, def, o.id, idx, o.controller, event)
        && match &def.condition {
        None => true,
        Some(c) => check_trigger_condition(state, c, o.controller, Some(o.id), Some(event)),
    }
}

fn build_event_groups(
    state: &GameState,
    event: &GameEvent,
    event_batch: &[GameEvent],
    def: &TriggerDefinition,
    id: ObjectId,
    controller: PlayerId,
) -> (r: Vec<List<GameEvent>>)
    ensures
        r@ == event_groups(state@, *event, event_batch@, *def, id, controller),
{
    let mut out: Vec<List<GameEvent>> = Vec::new();
    if def.batched {
        let events = matching_batched_trigger_events(state, event_batch, def, id, controller);
        if events.len() > 0 {
            out.push(List::from_vec(events));
        }
    } else if def.mode == TriggerMode::Attacks && def.condition.is_none() {
        let events = matching_attack_events(event, def, id, state);
        let mut i: usize = 0;
        while i < events.len()
            invariant
                i <= events@.len(),
                out@.len() == i,
                forall|j: int| 0 <= j < i ==> #[trigger] out@[j] == list_of(seq![events@[j]]),
            decreases events@.len() - i,
        {
            out.push(List::one(events[i].clone()));
            i = i + 1;
        }
    } else {
        out.push(List::one(event.clone()));
    }
    assert(out@ =~= event_groups(state@, *event, event_batch@, *def, id, controller));
    out
}

fn collect_one(
    state: &GameState,
    event: &GameEvent,
    event_batch: &[GameEvent],
    o: &GameObject,
    def: &TriggerDefinition,
    idx: usize,
    timestamp: u32,
    zone: Option<Zone>,
    batched_this_pass: &Vec<(ObjectId, usize)>,
    registered_this_event: &Vec<(ObjectId, usize)>,
    out: &mut Vec<MatchedTrigger>,
)
    ensures
        final(out)@ == old(out)@ + matched_of(
            state@,
            *event,
            event_batch@,
            *o,
            *def,
            idx,
            timestamp,
            zone,
            batched_this_pass@,
            registered_this_event@,
        ),
{
    let ghost here = matched_of(
        state@,
        *event,
        event_batch@,
        *o,
        *def,
        idx,
        timestamp,
        zone,
        batched_this_pass@,
        registered_this_event@,
    );
    if check_fires(
        state,
        event,
        o,
        def,
        idx,
        zone,
        batched_this_pass,
        registered_this_event,
    ) {
        let groups = build_event_groups(state, event, event_batch, def, o.id, o.controller);
        let mut i: usize = 0;
        while i < groups.len()
            invariant
                i <= groups@.len(),
                here.len() == groups@.len(),
                forall|j: int|
                    0 <= j < here.len() ==> #[trigger] here[j] == matched_trigger(
                        state@,
                        *o,
                        *def,
                        idx,
                        timestamp,
                        groups@[j],
                    ),
                out@ == old(out)@ + here.take(i as int),
            decreases groups@.len() - i,
        {
            out.push(build_matched_trigger(state, o, def, idx, timestamp, groups[i].clone()));
            assert(here.take(i + 1) =~= here.take(i as int).push(here[i as int]));
            i = i + 1;
        }
        assert(here.take(i as int) =~= here);
    }
    assert(out@ =~= old(out)@ + here);
}

fn collect_from(
    state: &GameState,
    event: &GameEvent,
    event_batch: &[GameEvent],
    o: &GameObject,
    defs: &List<TriggerDefinition>,
    idx: usize,
    timestamp: u32,
    zone: Option<Zone>,
    batched_this_pass: &Vec<(ObjectId, usize)>,
    registered_this_event: &Vec<(ObjectId, usize)>,
    out: &mut Vec<MatchedTrigger>,
)
    ensures
        final(out)@ == old(out)@ + matched_from(
            state@,
            *event,
            event_batch@,
            *o,
            *defs,
            idx,
            timestamp,
            zone,
            batched_this_pass@,
            registered_this_event@,
        ),
    decreases defs,
{
    match &defs.node {
        None => {
            assert(out@ =~= old(out)@ + Seq::<MatchedTrigger>::empty());
        },
        Some(n) => {
            collect_one(
                state,
                event,
                event_batch,
                o,
                &n.item,
                idx,
                timestamp,
                zone,
                batched_this_pass,
                registered_this_event,
                out,
            );
            let next: usize = if idx == usize::MAX {
                idx
            } else {
                idx + 1
            };
            collect_from(
                state,
                event,
                event_batch,
                o,
                &n.rest,
                next,
                timestamp,
                zone,
                batched_this_pass,
                registered_this_event,
                out,
            );
            assert(out@ =~= old(out)@ + matched_from(
                state@,
                *event,
                event_batch@,
                *o,
                *defs,
                idx,
                timestamp,
                zone,
                batched_this_pass@,
                registered_this_event@,
            ));
        },
    }
}

/// Check trigger definitions on an object against an event.
///
/// When `zone_filter` is `Some(zone)`, only trigger definitions whose `trigger_zones`
/// contains that zone will be checked, so that graveyard triggers and the like need no
/// unconditional scan of every zone.
pub fn collect_matching_triggers(
    state: &GameState,
    event: &GameEvent,
    event_batch: &[GameEvent],
    source_obj: &GameObject,
    timestamp: u32,
    zone_filter: Option<Zone>,
    batched_this_pass: &Vec<(ObjectId, usize)>,
    registered_this_event: &Vec<(ObjectId, usize)>,
) -> (r: Vec<MatchedTrigger>)
    ensures
        r@ == matched_triggers(
            state@,
            *event,
            event_batch@,
            *source_obj,
            timestamp,
            zone_filter,
            batched_this_pass@,
            registered_this_event@,
        ),
{
    proof {
        reveal(matched_triggers);
    }
    let mut out: Vec<MatchedTrigger> = Vec::new();
    let defs = active_trigger_definitions(source_obj);
    collect_from(
        state,
        event,
        event_batch,
        source_obj,
        &defs,
        0,
        timestamp,
        zone_filter,
        batched_this_pass,
        registered_this_event,
        &mut out,
    );
    assert(out@ =~= matched_triggers(
        state@,
        *event,
        event_batch@,
        *source_obj,
        timestamp,
        zone_filter,
        batched_this_pass@,
        registered_this_event@,
    ));
    out
}

} // verus!
