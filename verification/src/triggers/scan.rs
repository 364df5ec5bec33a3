//! The pass over a batch of events: every object that an event can set off, in every zone.

use crate::events::GameEvent;
use crate::functioning::{trigger_source_ids_for_zone, trigger_sources};
use crate::ids::{ObjectId, Zone};
use crate::object::GameObject;
use crate::state::{same_scene, Game, GameState};
use crate::triggers::collect::{
    collect_matching_triggers, event_is_suppressed_by_static_triggers, matched_triggers,
    suppressed, MatchedTrigger, PendingTriggerContext,
};
use crate::triggers::conditions::{
    add_key, constraint_of, firing_recorded, record_trigger_fired, with_key,
};
use crate::triggers::keywords::{
    after_firebending, entry_turn, find_entry_turn, keyword_triggers, note_fire_bent,
    push_keyword_triggers,
};
use crate::triggers::rules::{
    after_cast_triggers, after_speed_triggers, cast_triggers, push_cast_triggers,
    push_rule_triggers, rule_triggers,
};
use vstd::prelude::*;

verus! {

/// What a pass has come to: the game, the triggers found so far, the triggers that fire once for
/// the whole batch and have fired, and the triggers that have fired on the current event.
pub struct Pass {
    pub game: Game,
    pub pending: Seq<PendingTriggerContext>,
    pub batched: Seq<(ObjectId, usize)>,
    pub registered: Seq<(ObjectId, usize)>,
}

/// The part of a pass that is not the game.
pub struct Scan {
    pub pending: Vec<PendingTriggerContext>,
    pub batched: Vec<(ObjectId, usize)>,
    pub registered: Vec<(ObjectId, usize)>,
}

pub open spec fn pass_of(game: Game, scan: Scan) -> Pass {
    Pass {
        game,
        pending: scan.pending@,
        batched: scan.batched@,
        registered: scan.registered@,
    }
}

/// The pass after the first `n` of an object's matched triggers have been entered.
pub open spec fn entered(p: Pass, id: ObjectId, matched: Seq<MatchedTrigger>, n: nat) -> Pass
    decreases n,
{
    if n == 0 {
        p
    } else {
        let before = entered(p, id, matched, (n - 1) as nat);
        let m = matched[n - 1];
        let key = (id, m.trig_idx);
        Pass {
            game: firing_recorded(before.game, constraint_of(m.constraint), key),
            pending: before.pending.push(
                PendingTriggerContext { pending: m.pending, trigger_events: m.trigger_events },
            ),
            batched: if m.batched {
                with_key(before.batched, key)
            } else {
                before.batched
            },
            registered: with_key(before.registered, key),
        }
    }
}

fn enter(state: &mut GameState, scan: &mut Scan, id: ObjectId, matched: &Vec<MatchedTrigger>)
    ensures
        pass_of(final(state)@, *final(scan)) == entered(
            pass_of(old(state)@, *old(scan)),
            id,
            matched@,
            matched@.len(),
        ),
{
    let mut i: usize = 0;
    while i < matched.len()
        invariant
            i <= matched@.len(),
            pass_of(state@, *scan) == entered(
                pass_of(old(state)@, *old(scan)),
                id,
                matched@,
                i as nat,
            ),
        decreases matched@.len() - i,
    {
        let m = &matched[i];
        record_trigger_fired(state, &m.constraint, id, m.trig_idx);
        if m.batched {
            add_key(&mut scan.batched, (id, m.trig_idx));
        }
        add_key(&mut scan.registered, (id, m.trig_idx));
        scan.pending.push(
            PendingTriggerContext::batched(m.pending.clone(), m.trigger_events.clone()),
        );
        i = i + 1;
    }
}

/// The pass after the printed triggers of an object have been looked at, as from a zone.
pub open spec fn object_scanned(
    p: Pass,
    event: GameEvent,
    batch: Seq<GameEvent>,
    id: ObjectId,
    o: GameObject,
    timestamp: u32,
    zone: Zone,
) -> Pass {
    let matched = matched_triggers(
        p.game,
        event,
        batch,
        o,
        timestamp,
        Some(zone),
        p.batched,
        p.registered,
    );
    entered(p, id, matched, matched.len())
}

/// The pass after a permanent has been looked at: its printed triggers, then those that its
/// keywords bring.
#[verifier::opaque]
pub open spec fn permanent_scanned(
    p: Pass,
    event: GameEvent,
    batch: Seq<GameEvent>,
    id: ObjectId,
) -> Pass {
    match p.game.object(id) {
        None => p,
        Some(o) => {
            let printed = object_scanned(
                p,
                event,
                batch,
                id,
                o,
                entry_turn(o),
                Zone::Battlefield,
            );
            Pass {
                game: after_firebending(printed.game, o, id, event),
                pending: printed.pending + keyword_triggers(p.game, o, id, event),
                ..printed
            }
        },
    }
}

fn scan_permanent(
    state: &mut GameState,
    scan: &mut Scan,
    event: &GameEvent,
    batch: &[GameEvent],
    id: ObjectId,
)
    ensures
        pass_of(final(state)@, *final(scan)) == permanent_scanned(
            pass_of(old(state)@, *old(scan)),
            *event,
            batch@,
            id,
        ),
{
    proof {
        reveal(permanent_scanned);
    }
    let mut keyword_pending: Vec<PendingTriggerContext> = Vec::new();
    let (matched, fire, controller) = match state.objects.get(&id) {
        None => {
            return ;
        },
        Some(o) => {
            let matched = collect_matching_triggers(
                state,
                event,
                batch,
                o,
                find_entry_turn(o),
                Some(Zone::Battlefield),
                &scan.batched,
                &scan.registered,
            );
            let fire: bool = push_keyword_triggers(state, o, id, event, &mut keyword_pending);
            (matched, fire, o.controller)
        },
    };
    enter(state, scan, id, &matched);
    if fire {
        note_fire_bent(state, controller);
    }
    scan.pending.append(&mut keyword_pending);
    proof {
        let before = pass_of(old(state)@, *old(scan));
        let o = before.game.object(id)->0;
        assert(keyword_triggers(before.game, o, id, *event) =~= Seq::<PendingTriggerContext>::empty()
            + keyword_triggers(before.game, o, id, *event));
    }
}

/// The pass after the first `n` of some permanents have been looked at.
pub open spec fn permanents_scanned(
    p: Pass,
    event: GameEvent,
    batch: Seq<GameEvent>,
    ids: Seq<ObjectId>,
    n: nat,
) -> Pass
    decreases n,
{
    if n == 0 {
        p
    } else {
        permanent_scanned(
            permanents_scanned(p, event, batch, ids, (n - 1) as nat),
            event,
            batch,
            ids[n - 1],
        )
    }
}

/// The pass after an object that left the battlefield has been looked at as it was there
/// (CR 603.10a).
#[verifier::opaque]
pub open spec fn departed_scanned(p: Pass, event: GameEvent, batch: Seq<GameEvent>) -> Pass {
    match event {
        GameEvent::ZoneChanged { object_id, from, .. } => match p.game.object(object_id) {
            Some(o) => if from == Some(Zone::Battlefield) && o.zone != Zone::Battlefield {
                object_scanned(p, event, batch, object_id, o, entry_turn(o), Zone::Battlefield)
            } else {
                p
            },
            None => p,
        },
        _ => p,
    }
}

fn scan_departed(state: &mut GameState, scan: &mut Scan, event: &GameEvent, batch: &[GameEvent])
    ensures
        pass_of(final(state)@, *final(scan)) == departed_scanned(
            pass_of(old(state)@, *old(scan)),
            *event,
            batch@,
        ),
{
    proof {
        reveal(departed_scanned);
    }
    if let GameEvent::ZoneChanged { object_id, from, .. } = event {
        if *from == Some(Zone::Battlefield) {
            let matched = match state.objects.get(object_id) {
                None => {
                    return ;
                },
                Some(o) => {
                    if o.zone == Zone::Battlefield {
                        return ;
                    }
                    collect_matching_triggers(
                        state,
                        event,
                        batch,
                        o,
                        find_entry_turn(o),
                        Some(Zone::Battlefield),
                        &scan.batched,
                        &scan.registered,
                    )
                },
            };
            enter(state, scan, *object_id, &matched);
        }
    }
}

/// The pass after the first `n` of some objects of a zone have been looked at.
pub open spec fn zone_scanned(
    p: Pass,
    event: GameEvent,
    batch: Seq<GameEvent>,
    zone: Zone,
    ids: Seq<ObjectId>,
    n: nat,
) -> Pass
    decreases n,
{
    if n == 0 {
        p
    } else {
        let before = zone_scanned(p, event, batch, zone, ids, (n - 1) as nat);
        match before.game.object(ids[n - 1]) {
            None => before,
            Some(o) => object_scanned(before, event, batch, ids[n - 1], o, 0, zone),
        }
    }
}

/// The pass after a whole zone other than the battlefield has been looked at.
#[verifier::opaque]
pub open spec fn whole_zone_scanned(
    p: Pass,
    event: GameEvent,
    batch: Seq<GameEvent>,
    zone: Zone,
) -> Pass {
    let ids = trigger_sources(p.game, zone);
    zone_scanned(p, event, batch, zone, ids, ids.len())
}

fn scan_zone(
    state: &mut GameState,
    scan: &mut Scan,
    event: &GameEvent,
    batch: &[GameEvent],
    zone: Zone,
)
    ensures
        pass_of(final(state)@, *final(scan)) == whole_zone_scanned(
            pass_of(old(state)@, *old(scan)),
            *event,
            batch@,
            zone,
        ),
{
    proof {
        reveal(whole_zone_scanned);
    }
    let ids = trigger_source_ids_for_zone(state, zone);
    let mut i: usize = 0;
    while i < ids.len()
        invariant
            i <= ids@.len(),
            pass_of(state@, *scan) == zone_scanned(
                pass_of(old(state)@, *old(scan)),
                *event,
                batch@,
                zone,
                ids@,
                i as nat,
            ),
        decreases ids@.len() - i,
    {
        let matched = match state.objects.get(&ids[i]) {
            None => Vec::new(),
            Some(o) => collect_matching_triggers(
                state,
                event,
                batch,
                o,
                0,
                Some(zone),
                &scan.batched,
                &scan.registered,
            ),
        };
        enter(state, scan, ids[i], &matched);
        i = i + 1;
    }
}

/// The pass after one event.
#[verifier::opaque]
pub open spec fn event_scanned(p: Pass, event: GameEvent, batch: Seq<GameEvent>) -> Pass {
    if suppressed(p.game, event) {
        p
    } else {
        let fresh = Pass { registered: seq![], ..p };
        let ids = trigger_sources(fresh.game, Zone::Battlefield);
        let permanents = permanents_scanned(fresh, event, batch, ids, ids.len());
        let departed = departed_scanned(permanents, event, batch);
        let graveyards = whole_zone_scanned(departed, event, batch, Zone::Graveyard);
        let exile = whole_zone_scanned(graveyards, event, batch, Zone::Exile);
        let stack = whole_zone_scanned(exile, event, batch, Zone::Stack);
        let command = whole_zone_scanned(stack, event, batch, Zone::Command);
        let cast = Pass {
            game: after_cast_triggers(command.game, event),
            pending: command.pending + cast_triggers(command.game, event),
            ..command
        };
        Pass {
            game: after_speed_triggers(cast.game, event),
            pending: cast.pending + rule_triggers(cast.game, event),
            ..cast
        }
    }
}

fn scan_event(state: &mut GameState, scan: &mut Scan, event: &GameEvent, batch: &[GameEvent])
    ensures
        pass_of(final(state)@, *final(scan)) == event_scanned(
            pass_of(old(state)@, *old(scan)),
            *event,
            batch@,
        ),
{
    proof {
        reveal(event_scanned);
    }
    if event_is_suppressed_by_static_triggers(state, event) {
        return ;
    }
    scan.registered = Vec::new();
    let ghost fresh = Pass { registered: seq![], ..pass_of(old(state)@, *old(scan)) };
    assert(pass_of(state@, *scan) =~= fresh);
    let ids = trigger_source_ids_for_zone(state, Zone::Battlefield);
    let mut i: usize = 0;
    while i < ids.len()
        invariant
            i <= ids@.len(),
            pass_of(state@, *scan) == permanents_scanned(fresh, *event, batch@, ids@, i as nat),
        decreases ids@.len() - i,
    {
        scan_permanent(state, scan, event, batch, ids[i]);
        i = i + 1;
    }
    scan_departed(state, scan, event, batch);
    // CR 113.6k + CR 114.4: Non-battlefield trigger zones are opt-in via `trigger_zones`.
    scan_zone(state, scan, event, batch, Zone::Graveyard);
    scan_zone(state, scan, event, batch, Zone::Exile);
    scan_zone(state, scan, event, batch, Zone::Stack);
    scan_zone(state, scan, event, batch, Zone::Command);
    push_cast_triggers(state, event, &mut scan.pending);
    push_rule_triggers(state, event, &mut scan.pending);
}

/// The pass after the first `n` events of a batch.
pub open spec fn scanned(g: Game, batch: Seq<GameEvent>, n: nat) -> Pass
    decreases n,
{
    if n == 0 {
        Pass { game: g, pending: seq![], batched: seq![], registered: seq![] }
    } else {
        event_scanned(scanned(g, batch, (n - 1) as nat), batch[n - 1], batch)
    }
}

proof fn lemma_entered_keeps_table(p: Pass, id: ObjectId, matched: Seq<MatchedTrigger>, n: nat)
    ensures
        same_scene(p.game, entered(p, id, matched, n).game),
    decreases n,
{
    if n > 0 {
        lemma_entered_keeps_table(p, id, matched, (n - 1) as nat);
    }
}

proof fn lemma_permanent_keeps_table(p: Pass, event: GameEvent, batch: Seq<GameEvent>, id: ObjectId)
    ensures
        same_scene(p.game, permanent_scanned(p, event, batch, id).game),
{
    reveal(permanent_scanned);
    if let Some(o) = p.game.object(id) {
        let matched = matched_triggers(
            p.game,
            event,
            batch,
            o,
            entry_turn(o),
            Some(Zone::Battlefield),
            p.batched,
            p.registered,
        );
        lemma_entered_keeps_table(p, id, matched, matched.len());
    }
}

proof fn lemma_permanents_keep_table(
    p: Pass,
    event: GameEvent,
    batch: Seq<GameEvent>,
    ids: Seq<ObjectId>,
    n: nat,
)
    ensures
        same_scene(p.game, permanents_scanned(p, event, batch, ids, n).game),
    decreases n,
{
    if n > 0 {
        lemma_permanents_keep_table(p, event, batch, ids, (n - 1) as nat);
        lemma_permanent_keeps_table(
            permanents_scanned(p, event, batch, ids, (n - 1) as nat),
            event,
            batch,
            ids[n - 1],
        );
    }
}

proof fn lemma_departed_keeps_table(p: Pass, event: GameEvent, batch: Seq<GameEvent>)
    ensures
        same_scene(p.game, departed_scanned(p, event, batch).game),
{
    reveal(departed_scanned);
    if let GameEvent::ZoneChanged { object_id, .. } = event {
        if let Some(o) = p.game.object(object_id) {
            let matched = matched_triggers(
                p.game,
                event,
                batch,
                o,
                entry_turn(o),
                Some(Zone::Battlefield),
                p.batched,
                p.registered,
            );
            lemma_entered_keeps_table(p, object_id, matched, matched.len());
        }
    }
}

proof fn lemma_zone_keeps_table(
    p: Pass,
    event: GameEvent,
    batch: Seq<GameEvent>,
    zone: Zone,
    ids: Seq<ObjectId>,
    n: nat,
)
    ensures
        same_scene(p.game, zone_scanned(p, event, batch, zone, ids, n).game),
    decreases n,
{
    if n > 0 {
        lemma_zone_keeps_table(p, event, batch, zone, ids, (n - 1) as nat);
        let before = zone_scanned(p, event, batch, zone, ids, (n - 1) as nat);
        if let Some(o) = before.game.object(ids[n - 1]) {
            let matched = matched_triggers(
                before.game,
                event,
                batch,
                o,
                0,
                Some(zone),
                before.batched,
                before.registered,
            );
            lemma_entered_keeps_table(before, ids[n - 1], matched, matched.len());
        }
    }
}

proof fn lemma_whole_zone_keeps_table(
    p: Pass,
    event: GameEvent,
    batch: Seq<GameEvent>,
    zone: Zone,
)
    ensures
        same_scene(p.game, whole_zone_scanned(p, event, batch, zone).game),
{
    reveal(whole_zone_scanned);
    let ids = trigger_sources(p.game, zone);
    lemma_zone_keeps_table(p, event, batch, zone, ids, ids.len());
}

proof fn lemma_event_keeps_table(p: Pass, event: GameEvent, batch: Seq<GameEvent>)
    ensures
        same_scene(p.game, event_scanned(p, event, batch).game),
{
    reveal(event_scanned);
    if !suppressed(p.game, event) {
        let fresh = Pass { registered: seq![], ..p };
        let ids = trigger_sources(fresh.game, Zone::Battlefield);
        let permanents = permanents_scanned(fresh, event, batch, ids, ids.len());
        lemma_permanents_keep_table(fresh, event, batch, ids, ids.len());
        let departed = departed_scanned(permanents, event, batch);
        lemma_departed_keeps_table(permanents, event, batch);
        let graveyards = whole_zone_scanned(departed, event, batch, Zone::Graveyard);
        lemma_whole_zone_keeps_table(departed, event, batch, Zone::Graveyard);
        let exile = whole_zone_scanned(graveyards, event, batch, Zone::Exile);
        lemma_whole_zone_keeps_table(graveyards, event, batch, Zone::Exile);
        let stack = whole_zone_scanned(exile, event, batch, Zone::Stack);
        lemma_whole_zone_keeps_table(exile, event, batch, Zone::Stack);
        let command = whole_zone_scanned(stack, event, batch, Zone::Command);
        lemma_whole_zone_keeps_table(stack, event, batch, Zone::Command);
        let cast = after_cast_triggers(command.game, event);
        assert(same_scene(command.game, cast)) by {
            reveal(after_cast_triggers);
        }
        assert(same_scene(cast, after_speed_triggers(cast, event))) by {
            reveal(after_speed_triggers);
        }
    }
}

/// Looking for triggers moves nothing, removes no one and leaves the stack as it is.
pub proof fn law_scan_keeps_table(g: Game, batch: Seq<GameEvent>, n: nat)
    ensures
        same_scene(g, scanned(g, batch, n).game),
    decreases n,
{
    if n > 0 {
        law_scan_keeps_table(g, batch, (n - 1) as nat);
        lemma_event_keeps_table(scanned(g, batch, (n - 1) as nat), batch[n - 1], batch);
    }
}

/// Finds the triggers that a batch of events sets off.
pub fn scan_events(state: &mut GameState, batch: &[GameEvent]) -> (r: Vec<PendingTriggerContext>)
    ensures
        final(state)@ == scanned(old(state)@, batch@, batch@.len()).game,
        r@ == scanned(old(state)@, batch@, batch@.len()).pending,
{
    let mut scan = Scan { pending: Vec::new(), batched: Vec::new(), registered: Vec::new() };
    assert(pass_of(state@, scan) =~= scanned(old(state)@, batch@, 0));
    let mut i: usize = 0;
    while i < batch.len()
        invariant
            i <= batch@.len(),
            pass_of(state@, scan) == scanned(old(state)@, batch@, i as nat),
        decreases batch@.len() - i,
    {
        scan_event(state, &mut scan, &batch[i], batch);
        i = i + 1;
    }
    scan.pending
}

} // verus!
