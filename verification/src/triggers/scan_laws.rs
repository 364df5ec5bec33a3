//! How many triggers a pass over the events finds, and what it notes of those that fire.

use crate::ability::TriggerConstraint;
use crate::events::{GameEvent, ZoneChangeRecord};
use crate::functioning::trigger_sources;
use crate::ids::{ObjectId, PlayerId, Zone};
use crate::state::Game;
use crate::triggers::collect::{matched_triggers, suppressed, MatchedTrigger};
use crate::triggers::conditions::{constraint_allows, firing_recorded, with_key};
use crate::triggers::keywords::{entry_turn, keyword_triggers};
use crate::triggers::rules::{after_cast_triggers, cast_triggers, rule_triggers};
use crate::triggers::scan::{
    departed_scanned, entered, event_scanned, permanent_scanned, permanents_scanned, scanned,
    whole_zone_scanned, zone_scanned, Pass,
};
use std::rc::Rc;
use vstd::prelude::*;

verus! {

/// Each trigger that an object is found to have set off is entered once, in order, with the events
/// that go with it, behind those that were found before.
pub proof fn law_entered(p: Pass, id: ObjectId, matched: Seq<MatchedTrigger>, n: nat, k: int)
    requires
        n <= matched.len(),
    ensures
        ({
            let r = entered(p, id, matched, n);
            &&& r.pending.len() == p.pending.len() + n
            &&& 0 <= k < p.pending.len() ==> r.pending[k] == p.pending[k]
            &&& 0 <= k < n ==> r.pending[p.pending.len() + k].pending == matched[k].pending
                && r.pending[p.pending.len() + k].trigger_events == matched[k].trigger_events
            &&& 0 <= k < n ==> r.registered.contains((id, matched[k].trig_idx))
            &&& 0 <= k < n && matched[k].batched ==> r.batched.contains((id, matched[k].trig_idx))
        }),
    decreases n,
{
    if n > 0 {
        law_entered(p, id, matched, (n - 1) as nat, k);
        let before = entered(p, id, matched, (n - 1) as nat);
        let key = (id, matched[n - 1].trig_idx);
        lemma_noted(before.registered, key, (id, matched[k].trig_idx));
        lemma_noted(before.batched, key, (id, matched[k].trig_idx));
    }
}

proof fn lemma_noted(
    keys: Seq<(ObjectId, usize)>,
    key: (ObjectId, usize),
    other: (ObjectId, usize),
)
    ensures
        ({
            let r = with_key(keys, key);
            r.contains(other) <==> other == key || keys.contains(other)
        }),
{
    let r = with_key(keys, key);
    if !keys.contains(key) {
        assert(keys.push(key)[keys.len() as int] == key);
        if keys.contains(other) {
            let k = choose|k: int| 0 <= k < keys.len() && keys[k] == other;
            assert(keys.push(key)[k] == other);
        }
    }
}

/// A permanent brings just the printed triggers that are set off and those of its keywords, each
/// once.
pub proof fn law_permanent_brings(p: Pass, event: GameEvent, batch: Seq<GameEvent>, id: ObjectId)
    ensures
        ({
            let r = permanent_scanned(p, event, batch, id);
            let o = p.game.objects[id];
            let printed = matched_triggers(
                p.game,
                event,
                batch,
                o,
                entry_turn(o),
                Some(Zone::Battlefield),
                p.batched,
                p.registered,
            );
            &&& !p.game.objects.contains_key(id) ==> r == p
            &&& p.game.objects.contains_key(id) ==> r.pending.len() == p.pending.len()
                + printed.len() + keyword_triggers(p.game, o, id, event).len()
        }),
{
    reveal(permanent_scanned);
    if p.game.objects.contains_key(id) {
        let o = p.game.objects[id];
        let printed = matched_triggers(
            p.game,
            event,
            batch,
            o,
            entry_turn(o),
            Some(Zone::Battlefield),
            p.batched,
            p.registered,
        );
        law_entered(p, id, printed, printed.len(), 0);
    }
}

/// An object of another zone brings just its printed triggers that work there and are set off,
/// each once.
pub proof fn law_card_brings(
    p: Pass,
    event: GameEvent,
    batch: Seq<GameEvent>,
    zone: Zone,
    ids: Seq<ObjectId>,
    n: nat,
)
    requires
        n < ids.len(),
    ensures
        ({
            let before = zone_scanned(p, event, batch, zone, ids, n);
            let after = zone_scanned(p, event, batch, zone, ids, n + 1);
            let id = ids[n as int];
            let printed = matched_triggers(
                before.game,
                event,
                batch,
                before.game.objects[id],
                0,
                Some(zone),
                before.batched,
                before.registered,
            );
            &&& zone_scanned(p, event, batch, zone, ids, 0) == p
            &&& !before.game.objects.contains_key(id) ==> after == before
            &&& before.game.objects.contains_key(id) ==> after.pending.len()
                == before.pending.len() + printed.len()
        }),
{
    let before = zone_scanned(p, event, batch, zone, ids, n);
    let id = ids[n as int];
    if before.game.objects.contains_key(id) {
        let printed = matched_triggers(
            before.game,
            event,
            batch,
            before.game.objects[id],
            0,
            Some(zone),
            before.batched,
            before.registered,
        );
        law_entered(before, id, printed, printed.len(), 0);
    }
}

/// An object that an event took off the battlefield, and that is not back there, is looked at once
/// as the permanent that it was; nothing else is looked at on that account (CR 603.10a).
pub proof fn law_departed_brings(
    p: Pass,
    event: GameEvent,
    batch: Seq<GameEvent>,
    id: ObjectId,
    from: Option<Zone>,
    to: Zone,
    record: Rc<ZoneChangeRecord>,
)
    ensures
        ({
            let moved = GameEvent::ZoneChanged { object_id: id, from, to, record };
            let r = departed_scanned(p, moved, batch);
            let o = p.game.objects[id];
            let left = p.game.objects.contains_key(id) && from == Some(Zone::Battlefield) && o.zone
                != Zone::Battlefield;
            let printed = matched_triggers(
                p.game,
                moved,
                batch,
                o,
                entry_turn(o),
                Some(Zone::Battlefield),
                p.batched,
                p.registered,
            );
            &&& left ==> r.pending.len() == p.pending.len() + printed.len()
            &&& !left ==> r == p
            &&& !(event is ZoneChanged) ==> departed_scanned(p, event, batch) == p
        }),
{
    reveal(departed_scanned);
    let moved = GameEvent::ZoneChanged { object_id: id, from, to, record };
    let o = p.game.objects[id];
    let printed = matched_triggers(
        p.game,
        moved,
        batch,
        o,
        entry_turn(o),
        Some(Zone::Battlefield),
        p.batched,
        p.registered,
    );
    law_entered(p, id, printed, printed.len(), 0);
}

/// A whole zone is looked at object by object, all of those whose abilities may trigger there.
pub proof fn law_zone_brings(p: Pass, event: GameEvent, batch: Seq<GameEvent>, zone: Zone)
    ensures
        whole_zone_scanned(p, event, batch, zone) == zone_scanned(
            p,
            event,
            batch,
            zone,
            trigger_sources(p.game, zone),
            trigger_sources(p.game, zone).len(),
        ),
{
    reveal(whole_zone_scanned);
}

/// On an event each zone is looked at once, with nothing noted yet of the event: first the
/// permanents, then what left the battlefield, then graveyards, exile, the stack and the command
/// zone; then come the triggers of a cast and those of the rules. A suppressed event brings
/// nothing.
pub proof fn law_event_brings(p: Pass, event: GameEvent, batch: Seq<GameEvent>)
    ensures
        ({
            let r = event_scanned(p, event, batch);
            let fresh = Pass { registered: seq![], ..p };
            let ids = trigger_sources(p.game, Zone::Battlefield);
            let here = departed_scanned(
                permanents_scanned(fresh, event, batch, ids, ids.len()),
                event,
                batch,
            );
            let cards = whole_zone_scanned(
                whole_zone_scanned(here, event, batch, Zone::Graveyard),
                event,
                batch,
                Zone::Exile,
            );
            let all = whole_zone_scanned(
                whole_zone_scanned(cards, event, batch, Zone::Stack),
                event,
                batch,
                Zone::Command,
            );
            &&& suppressed(p.game, event) ==> r == p
            &&& !suppressed(p.game, event) ==> r.pending == all.pending + cast_triggers(
                all.game,
                event,
            ) + rule_triggers(after_cast_triggers(all.game, event), event)
            &&& !suppressed(p.game, event) ==> r.batched == all.batched
        }),
{
    reveal(event_scanned);
}

/// The events of a batch are looked at in their order, each once.
pub proof fn law_events_in_order(g: Game, batch: Seq<GameEvent>, n: nat)
    requires
        n < batch.len(),
    ensures
        scanned(g, batch, 0).pending.len() == 0,
        scanned(g, batch, 0).game == g,
        scanned(g, batch, n + 1) == event_scanned(scanned(g, batch, n), batch[n as int], batch),
{
}

/// A trigger that may fire once in a turn or in a game may not once its firing is noted, and one
/// that may fire so many times has one time less; for every other trigger nothing changes.
pub proof fn law_firing_noted(
    g: Game,
    key: (ObjectId, usize),
    other: (ObjectId, usize),
    controller: PlayerId,
    event: GameEvent,
    n: u32,
)
    ensures
        ({
            let turn = TriggerConstraint::OncePerTurn;
            let game = TriggerConstraint::OncePerGame;
            let limit = TriggerConstraint::MaxTimesPerTurn { max: n };
            let after_turn = firing_recorded(g, Some(turn), key);
            let after_game = firing_recorded(g, Some(game), key);
            let after_limit = firing_recorded(g, Some(limit), key);
            let had: int = if g.trigger_fire_counts_this_turn.contains_key(key) {
                g.trigger_fire_counts_this_turn[key] as int
            } else {
                0
            };
            &&& !constraint_allows(after_turn, turn, key, controller, event)
            &&& !constraint_allows(after_game, game, key, controller, event)
            &&& had < u32::MAX ==> (constraint_allows(after_limit, limit, key, controller, event)
                <==> had + 1 < n)
            &&& other != key ==> {
                &&& constraint_allows(after_turn, turn, other, controller, event)
                    == constraint_allows(g, turn, other, controller, event)
                &&& constraint_allows(after_game, game, other, controller, event)
                    == constraint_allows(g, game, other, controller, event)
                &&& constraint_allows(after_limit, limit, other, controller, event)
                    == constraint_allows(g, limit, other, controller, event)
            }
            &&& firing_recorded(g, None, key) == g
        }),
{
    lemma_noted(g.triggers_fired_this_turn, key, key);
    lemma_noted(g.triggers_fired_this_game, key, key);
    lemma_noted(g.triggers_fired_this_turn, key, other);
    lemma_noted(g.triggers_fired_this_game, key, other);
}

} // verus!
