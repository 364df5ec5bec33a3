//! That what is found on the way through a batch of events reaches the stack: a trigger that a
//! permanent's keyword, a spell or the rules bring is among those set off, and its ability is on
//! the stack once triggers have been processed.

use crate::ability::{
    AbilityKind, Effect, MayTriggerOrigin, ResolvedAbility, SpellContext, TargetSelectionMode,
    TriggerCondition,
};
use crate::events::GameEvent;
use crate::functioning::{
    active_emblems, graveyards, is_phased_in, phased_in, spells_on_stack, trigger_sources,
};
use crate::ids::{ObjectId, PlayerId, Zone};
use crate::layers::law_layers_keep_table;
use crate::list::list_of;
use crate::mana::is_mana_ability;
use crate::object::{GameObject, Player};
use crate::state::{Game, StackEntry, StackEntryKind};
use crate::targeting::chain_slots;
use crate::text::Text;
use crate::triggers::collect::{matched_triggers, suppressed, MatchedTrigger, PendingTriggerContext};
use crate::triggers::keywords::{entry_turn, fire_bent, keyword_triggers};
use crate::triggers::laws::law_placing;
use crate::triggers::order::law_stack_order;
use crate::triggers::placing::{one_placed, placed, pushed, with_doubles};
use crate::triggers::rules::{
    after_cast_triggers, after_speed_triggers, cast_triggers, rule_triggers,
};
use crate::triggers::scan::{
    departed_scanned, entered, event_scanned, law_scan_keeps_table, object_scanned,
    permanent_scanned, permanents_scanned, scanned, whole_zone_scanned, zone_scanned, Pass,
};
use crate::triggers::{triggers_processed, triggers_set_off, up_to_date, PendingTrigger};
use std::rc::Rc;
use vstd::prelude::*;

verus! {

/// Whether two games differ in nothing but the marks that looking for triggers leaves: which
/// triggers have fired and how often, the next timestamp, and for a player that they have bent
/// fire or that their speed trigger is used up.
pub open spec fn same_facts(a: Game, b: Game) -> bool {
    &&& b == Game {
        players: b.players,
        triggers_fired_this_turn: b.triggers_fired_this_turn,
        triggers_fired_this_game: b.triggers_fired_this_game,
        trigger_fire_counts_this_turn: b.trigger_fire_counts_this_turn,
        timestamp_counter: b.timestamp_counter,
        ..a
    }
    &&& a.players.len() == b.players.len()
    &&& forall|i: int|
        0 <= i < a.players.len() ==> (#[trigger] b.players[i]) == (Player {
            bending_types_this_turn: b.players[i].bending_types_this_turn,
            speed_trigger_used: b.players[i].speed_trigger_used,
            ..a.players[i]
        })
}

pub proof fn lemma_same_facts_twice(a: Game, b: Game, c: Game)
    requires
        same_facts(a, b),
        same_facts(b, c),
    ensures
        same_facts(a, c),
{
    assert forall|i: int| 0 <= i < a.players.len() implies (#[trigger] c.players[i]) == (Player {
        bending_types_this_turn: c.players[i].bending_types_this_turn,
        speed_trigger_used: c.players[i].speed_trigger_used,
        ..a.players[i]
    }) by {
        assert(b.players[i] == b.players[i]);
    }
}

/// Whether a pass has found all that another has, in a game that differs in nothing else.
spec fn grown(p: Pass, r: Pass) -> bool {
    &&& same_facts(p.game, r.game)
    &&& forall|x: PendingTriggerContext| #[trigger] p.pending.contains(x) ==> r.pending.contains(x)
}

proof fn lemma_grown_twice(p: Pass, q: Pass, r: Pass)
    requires
        grown(p, q),
        grown(q, r),
    ensures
        grown(p, r),
{
    lemma_same_facts_twice(p.game, q.game, r.game);
}

proof fn lemma_longer(a: Seq<PendingTriggerContext>, b: Seq<PendingTriggerContext>)
    ensures
        forall|x: PendingTriggerContext| #[trigger] a.contains(x) ==> (a + b).contains(x),
        forall|x: PendingTriggerContext| #[trigger] b.contains(x) ==> (a + b).contains(x),
{
    assert forall|x: PendingTriggerContext| #[trigger] a.contains(x) implies (a + b).contains(
        x,
    ) by {
        let i = choose|i: int| 0 <= i < a.len() && a[i] == x;
        assert((a + b)[i] == x);
    }
    assert forall|x: PendingTriggerContext| #[trigger] b.contains(x) implies (a + b).contains(
        x,
    ) by {
        let i = choose|i: int| 0 <= i < b.len() && b[i] == x;
        assert((a + b)[a.len() + i] == x);
    }
}

proof fn lemma_entered_grown(p: Pass, id: ObjectId, matched: Seq<MatchedTrigger>, n: nat)
    ensures
        grown(p, entered(p, id, matched, n)),
    decreases n,
{
    if n > 0 {
        lemma_entered_grown(p, id, matched, (n - 1) as nat);
        let before = entered(p, id, matched, (n - 1) as nat);
        let now = entered(p, id, matched, n);
        assert(grown(before, now)) by {
            assert(same_facts(before.game, now.game));
            assert forall|x: PendingTriggerContext| #[trigger]
                before.pending.contains(x) implies now.pending.contains(x) by {
                let i = choose|i: int| 0 <= i < before.pending.len() && before.pending[i] == x;
                assert(now.pending[i] == x);
            }
        }
        lemma_grown_twice(p, before, now);
    }
}

proof fn lemma_fire_bent(g: Game, player: PlayerId)
    ensures
        same_facts(g, fire_bent(g, player)),
{
}

proof fn lemma_permanent_grown(p: Pass, event: GameEvent, batch: Seq<GameEvent>, id: ObjectId)
    ensures
        grown(p, permanent_scanned(p, event, batch, id)),
        p.game.objects.contains_key(id) ==> forall|x: PendingTriggerContext| #[trigger]
            keyword_triggers(p.game, p.game.objects[id], id, event).contains(x)
                ==> permanent_scanned(p, event, batch, id).pending.contains(x),
{
    reveal(permanent_scanned);
    if let Some(o) = p.game.object(id) {
        let matched = matched_triggers(
            p.game,
            event,
            batch,
            o,
            entry_turn(o),
            Some(Zone::Battlefield),
            p.batched,
            p.registered,
        );
        let printed = entered(p, id, matched, matched.len());
        lemma_entered_grown(p, id, matched, matched.len());
        let now = permanent_scanned(p, event, batch, id);
        lemma_fire_bent(printed.game, o.controller);
        lemma_longer(printed.pending, keyword_triggers(p.game, o, id, event));
        assert(same_facts(printed.game, now.game));
        lemma_grown_twice(p, printed, now);
    }
}

proof fn lemma_permanents_grown(
    p: Pass,
    event: GameEvent,
    batch: Seq<GameEvent>,
    ids: Seq<ObjectId>,
    n: nat,
)
    ensures
        grown(p, permanents_scanned(p, event, batch, ids, n)),
    decreases n,
{
    if n > 0 {
        lemma_permanents_grown(p, event, batch, ids, (n - 1) as nat);
        let before = permanents_scanned(p, event, batch, ids, (n - 1) as nat);
        lemma_permanent_grown(before, event, batch, ids[n - 1]);
        lemma_grown_twice(p, before, permanents_scanned(p, event, batch, ids, n));
    }
}

/// What the keywords of one of the permanents bring is found.
proof fn lemma_permanents_find(
    p: Pass,
    event: GameEvent,
    batch: Seq<GameEvent>,
    ids: Seq<ObjectId>,
    n: nat,
    k: int,
    x: PendingTriggerContext,
)
    requires
        0 <= k < n,
        p.game.objects.contains_key(ids[k]),
        forall|h: Game| #[trigger]
            same_facts(p.game, h) ==> keyword_triggers(
                h,
                p.game.objects[ids[k]],
                ids[k],
                event,
            ).contains(x),
    ensures
        permanents_scanned(p, event, batch, ids, n).pending.contains(x),
    decreases n,
{
    let before = permanents_scanned(p, event, batch, ids, (n - 1) as nat);
    lemma_permanents_grown(p, event, batch, ids, (n - 1) as nat);
    lemma_permanent_grown(before, event, batch, ids[n - 1]);
    if k < n - 1 {
        lemma_permanents_find(p, event, batch, ids, (n - 1) as nat, k, x);
    } else {
        assert(same_facts(p.game, before.game));
    }
}

proof fn lemma_departed_grown(p: Pass, event: GameEvent, batch: Seq<GameEvent>)
    ensures
        grown(p, departed_scanned(p, event, batch)),
{
    reveal(departed_scanned);
    if let GameEvent::ZoneChanged { object_id, .. } = event {
        if let Some(o) = p.game.object(object_id) {
            let matched = matched_triggers(
                p.game,
                event,
                batch,
                o,
                entry_turn(o),
                Some(Zone::Battlefield),
                p.batched,
                p.registered,
            );
            lemma_entered_grown(p, object_id, matched, matched.len());
        }
    }
}

proof fn lemma_zone_grown(
    p: Pass,
    event: GameEvent,
    batch: Seq<GameEvent>,
    zone: Zone,
    ids: Seq<ObjectId>,
    n: nat,
)
    ensures
        grown(p, zone_scanned(p, event, batch, zone, ids, n)),
    decreases n,
{
    if n > 0 {
        lemma_zone_grown(p, event, batch, zone, ids, (n - 1) as nat);
        let before = zone_scanned(p, event, batch, zone, ids, (n - 1) as nat);
        if let Some(o) = before.game.object(ids[n - 1]) {
            let matched = matched_triggers(
                before.game,
                event,
                batch,
                o,
                0,
                Some(zone),
                before.batched,
                before.registered,
            );
            lemma_entered_grown(before, ids[n - 1], matched, matched.len());
            lemma_grown_twice(p, before, zone_scanned(p, event, batch, zone, ids, n));
        }
    }
}

proof fn lemma_whole_zone_grown(p: Pass, event: GameEvent, batch: Seq<GameEvent>, zone: Zone)
    ensures
        grown(p, whole_zone_scanned(p, event, batch, zone)),
{
    reveal(whole_zone_scanned);
    let ids = trigger_sources(p.game, zone);
    lemma_zone_grown(p, event, batch, zone, ids, ids.len());
}

proof fn lemma_after_cast(g: Game, event: GameEvent)
    ensures
        same_facts(g, after_cast_triggers(g, event)),
{
    reveal(after_cast_triggers);
}

proof fn lemma_after_speed(g: Game, event: GameEvent)
    ensures
        same_facts(g, after_speed_triggers(g, event)),
{
    reveal(after_speed_triggers);
}

/// The passes over the zones other than the battlefield, and what the spell that is being cast
/// and the rules bring on top.
proof fn lemma_rest_of_event(permanents: Pass, event: GameEvent, batch: Seq<GameEvent>) -> (r: (
    Pass,
    Pass,
    Pass,
))
    ensures
        ({
            let departed = departed_scanned(permanents, event, batch);
            let graveyards = whole_zone_scanned(departed, event, batch, Zone::Graveyard);
            let exile = whole_zone_scanned(graveyards, event, batch, Zone::Exile);
            let stack = whole_zone_scanned(exile, event, batch, Zone::Stack);
            let command = whole_zone_scanned(stack, event, batch, Zone::Command);
            let cast = Pass {
                game: after_cast_triggers(command.game, event),
                pending: command.pending + cast_triggers(command.game, event),
                ..command
            };
            let end = Pass {
                game: after_speed_triggers(cast.game, event),
                pending: cast.pending + rule_triggers(cast.game, event),
                ..cast
            };
            &&& r == (command, cast, end)
            &&& grown(permanents, command)
            &&& grown(command, cast)
            &&& grown(cast, end)
            &&& grown(permanents, end)
            &&& forall|x: PendingTriggerContext| #[trigger]
                cast_triggers(command.game, event).contains(x) ==> end.pending.contains(x)
            &&& forall|x: PendingTriggerContext| #[trigger]
                rule_triggers(cast.game, event).contains(x) ==> end.pending.contains(x)
        }),
{
    let departed = departed_scanned(permanents, event, batch);
    lemma_departed_grown(permanents, event, batch);
    let graveyards = whole_zone_scanned(departed, event, batch, Zone::Graveyard);
    lemma_whole_zone_grown(departed, event, batch, Zone::Graveyard);
    lemma_grown_twice(permanents, departed, graveyards);
    let exile = whole_zone_scanned(graveyards, event, batch, Zone::Exile);
    lemma_whole_zone_grown(graveyards, event, batch, Zone::Exile);
    lemma_grown_twice(permanents, graveyards, exile);
    let stack = whole_zone_scanned(exile, event, batch, Zone::Stack);
    lemma_whole_zone_grown(exile, event, batch, Zone::Stack);
    lemma_grown_twice(permanents, exile, stack);
    let command = whole_zone_scanned(stack, event, batch, Zone::Command);
    lemma_whole_zone_grown(stack, event, batch, Zone::Command);
    lemma_grown_twice(permanents, stack, command);
    let cast = Pass {
        game: after_cast_triggers(command.game, event),
        pending: command.pending + cast_triggers(command.game, event),
        ..command
    };
    lemma_after_cast(command.game, event);
    lemma_longer(command.pending, cast_triggers(command.game, event));
    lemma_grown_twice(permanents, command, cast);
    let end = Pass {
        game: after_speed_triggers(cast.game, event),
        pending: cast.pending + rule_triggers(cast.game, event),
        ..cast
    };
    lemma_after_speed(cast.game, event);
    lemma_longer(cast.pending, rule_triggers(cast.game, event));
    lemma_grown_twice(permanents, cast, end);
    (command, cast, end)
}

proof fn lemma_event_grown(p: Pass, event: GameEvent, batch: Seq<GameEvent>)
    ensures
        grown(p, event_scanned(p, event, batch)),
{
    reveal(event_scanned);
    if !suppressed(p.game, event) {
        let fresh = Pass { registered: seq![], ..p };
        let ids = trigger_sources(fresh.game, Zone::Battlefield);
        let permanents = permanents_scanned(fresh, event, batch, ids, ids.len());
        lemma_permanents_grown(fresh, event, batch, ids, ids.len());
        let r = lemma_rest_of_event(permanents, event, batch);
        lemma_grown_twice(fresh, permanents, r.2);
        assert(r.2 == event_scanned(p, event, batch));
        assert(grown(p, r.2)) by {
            assert(same_facts(fresh.game, r.2.game));
            assert forall|x: PendingTriggerContext| #[trigger]
                p.pending.contains(x) implies r.2.pending.contains(x) by {
                assert(fresh.pending.contains(x));
            }
        }
    } else {
        assert(same_facts(p.game, p.game));
    }
}

proof fn lemma_scanned_grown(g: Game, batch: Seq<GameEvent>, m: nat, n: nat)
    requires
        m <= n,
    ensures
        grown(scanned(g, batch, m), scanned(g, batch, n)),
    decreases n,
{
    if m < n {
        lemma_scanned_grown(g, batch, m, (n - 1) as nat);
        let before = scanned(g, batch, (n - 1) as nat);
        lemma_event_grown(before, batch[n - 1], batch);
        lemma_grown_twice(scanned(g, batch, m), before, scanned(g, batch, n));
    }
}

/// Looking for triggers leaves nothing but its marks.
pub proof fn lemma_scanned_same_facts(g: Game, batch: Seq<GameEvent>, n: nat)
    ensures
        same_facts(g, scanned(g, batch, n).game),
{
    lemma_scanned_grown(g, batch, 0, n);
}

/// Whether an identifier is that of a permanent that is phased in.
pub open spec fn is_permanent(g: Game, id: ObjectId) -> bool {
    g.battlefield.contains(id) && g.objects.contains_key(id) && !g.objects[id].phased_out
}

proof fn lemma_phased_in(g: Game, n: nat, i: int)
    requires
        0 <= i < n <= g.battlefield.len(),
        is_phased_in(g, g.battlefield[i]),
    ensures
        phased_in(g, n).contains(g.battlefield[i]),
    decreases n,
{
    let before = phased_in(g, (n - 1) as nat);
    let now = phased_in(g, n);
    let id = g.battlefield[i];
    if i < n - 1 {
        lemma_phased_in(g, (n - 1) as nat, i);
        let k = choose|k: int| 0 <= k < before.len() && before[k] == id;
        assert(now[k] == id);
    } else {
        assert(now[before.len() as int] == id);
    }
}

/// What a permanent's keywords bring on an event that is not suppressed is found.
pub proof fn lemma_keyword_found(
    g: Game,
    batch: Seq<GameEvent>,
    e: int,
    id: ObjectId,
    x: PendingTriggerContext,
)
    requires
        0 <= e < batch.len(),
        !suppressed(scanned(g, batch, e as nat).game, batch[e]),
        is_permanent(g, id),
        forall|h: Game| #[trigger]
            same_facts(g, h) ==> keyword_triggers(h, g.objects[id], id, batch[e]).contains(x),
    ensures
        scanned(g, batch, batch.len()).pending.contains(x),
{
    let p = scanned(g, batch, e as nat);
    let event = batch[e];
    lemma_scanned_grown(g, batch, 0, e as nat);
    let fresh = Pass { registered: seq![], ..p };
    let ids = trigger_sources(fresh.game, Zone::Battlefield);
    assert(same_facts(g, p.game));
    let i = choose|i: int| 0 <= i < g.battlefield.len() && g.battlefield[i] == id;
    lemma_phased_in(p.game, p.game.battlefield.len(), i);
    reveal(trigger_sources);
    let k = choose|k: int| 0 <= k < ids.len() && ids[k] == id;
    assert forall|h: Game| #[trigger] same_facts(p.game, h) implies keyword_triggers(
        h,
        p.game.objects[ids[k]],
        ids[k],
        event,
    ).contains(x) by {
        lemma_same_facts_twice(g, p.game, h);
    }
    let permanents = permanents_scanned(fresh, event, batch, ids, ids.len());
    lemma_permanents_find(fresh, event, batch, ids, ids.len(), k, x);
    let r = lemma_rest_of_event(permanents, event, batch);
    assert(event_scanned(p, event, batch) == r.2) by {
        reveal(event_scanned);
    }
    assert(scanned(g, batch, (e + 1) as nat) == r.2);
    lemma_scanned_grown(g, batch, (e + 1) as nat, batch.len());
}

/// What the rules themselves bring on an event that is not suppressed is found.
pub proof fn lemma_rule_found(g: Game, batch: Seq<GameEvent>, e: int, x: PendingTriggerContext)
    requires
        0 <= e < batch.len(),
        !suppressed(scanned(g, batch, e as nat).game, batch[e]),
        forall|h: Game| #[trigger] same_facts(g, h) ==> rule_triggers(h, batch[e]).contains(x),
    ensures
        scanned(g, batch, batch.len()).pending.contains(x),
{
    let p = scanned(g, batch, e as nat);
    let event = batch[e];
    lemma_scanned_grown(g, batch, 0, e as nat);
    let fresh = Pass { registered: seq![], ..p };
    let ids = trigger_sources(fresh.game, Zone::Battlefield);
    let permanents = permanents_scanned(fresh, event, batch, ids, ids.len());
    lemma_permanents_grown(fresh, event, batch, ids, ids.len());
    let r = lemma_rest_of_event(permanents, event, batch);
    lemma_grown_twice(fresh, permanents, r.0);
    lemma_grown_twice(fresh, r.0, r.1);
    lemma_same_facts_twice(g, fresh.game, r.1.game);
    assert(event_scanned(p, event, batch) == r.2) by {
        reveal(event_scanned);
    }
    assert(scanned(g, batch, (e + 1) as nat) == r.2);
    lemma_scanned_grown(g, batch, (e + 1) as nat, batch.len());
}

/// Whether all the printed triggers of an object that an event sets off, as one pass sees them
/// from a zone, are among those that another has found.
pub open spec fn all_entered(
    q: Pass,
    event: GameEvent,
    batch: Seq<GameEvent>,
    o: GameObject,
    timestamp: u32,
    zone: Zone,
    found: Seq<PendingTriggerContext>,
) -> bool {
    let matched = matched_triggers(
        q.game,
        event,
        batch,
        o,
        timestamp,
        Some(zone),
        q.batched,
        q.registered,
    );
    forall|k: int|
        0 <= k < matched.len() ==> found.contains(
            PendingTriggerContext {
                pending: (#[trigger] matched[k]).pending,
                trigger_events: matched[k].trigger_events,
            },
        )
}

proof fn lemma_entered_finds(
    p: Pass,
    id: ObjectId,
    matched: Seq<MatchedTrigger>,
    n: nat,
    k: int,
)
    requires
        0 <= k < n <= matched.len(),
    ensures
        entered(p, id, matched, n).pending.contains(
            PendingTriggerContext {
                pending: matched[k].pending,
                trigger_events: matched[k].trigger_events,
            },
        ),
    decreases n,
{
    let x = PendingTriggerContext {
        pending: matched[k].pending,
        trigger_events: matched[k].trigger_events,
    };
    let before = entered(p, id, matched, (n - 1) as nat).pending;
    let now = entered(p, id, matched, n).pending;
    if k < n - 1 {
        lemma_entered_finds(p, id, matched, (n - 1) as nat, k);
        let j = choose|j: int| 0 <= j < before.len() && before[j] == x;
        assert(now[j] == x);
    } else {
        assert(now[before.len() as int] == x);
    }
}

/// Looking at an object enters all its triggers.
proof fn lemma_object_finds(
    q: Pass,
    event: GameEvent,
    batch: Seq<GameEvent>,
    id: ObjectId,
    o: GameObject,
    timestamp: u32,
    zone: Zone,
)
    ensures
        all_entered(
            q,
            event,
            batch,
            o,
            timestamp,
            zone,
            object_scanned(q, event, batch, id, o, timestamp, zone).pending,
        ),
{
    let matched = matched_triggers(
        q.game,
        event,
        batch,
        o,
        timestamp,
        Some(zone),
        q.batched,
        q.registered,
    );
    assert forall|k: int| 0 <= k < matched.len() implies object_scanned(
        q,
        event,
        batch,
        id,
        o,
        timestamp,
        zone,
    ).pending.contains(
        PendingTriggerContext {
            pending: (#[trigger] matched[k]).pending,
            trigger_events: matched[k].trigger_events,
        },
    ) by {
        lemma_entered_finds(q, id, matched, matched.len(), k);
    }
}

proof fn lemma_still_entered(
    q: Pass,
    event: GameEvent,
    batch: Seq<GameEvent>,
    o: GameObject,
    timestamp: u32,
    zone: Zone,
    r: Pass,
    end: Pass,
)
    requires
        all_entered(q, event, batch, o, timestamp, zone, r.pending),
        grown(r, end),
    ensures
        all_entered(q, event, batch, o, timestamp, zone, end.pending),
{
}

proof fn lemma_permanents_look(
    p: Pass,
    event: GameEvent,
    batch: Seq<GameEvent>,
    ids: Seq<ObjectId>,
    n: nat,
    k: int,
) -> (q: Pass)
    requires
        0 <= k < n,
        p.game.objects.contains_key(ids[k]),
    ensures
        same_facts(p.game, q.game),
        all_entered(
            q,
            event,
            batch,
            p.game.objects[ids[k]],
            entry_turn(p.game.objects[ids[k]]),
            Zone::Battlefield,
            permanents_scanned(p, event, batch, ids, n).pending,
        ),
    decreases n,
{
    let before = permanents_scanned(p, event, batch, ids, (n - 1) as nat);
    let now = permanents_scanned(p, event, batch, ids, n);
    lemma_permanents_grown(p, event, batch, ids, (n - 1) as nat);
    lemma_permanent_grown(before, event, batch, ids[n - 1]);
    let o = p.game.objects[ids[k]];
    if k < n - 1 {
        let q = lemma_permanents_look(p, event, batch, ids, (n - 1) as nat, k);
        lemma_still_entered(q, event, batch, o, entry_turn(o), Zone::Battlefield, before, now);
        q
    } else {
        let id = ids[k];
        let printed = object_scanned(
            before,
            event,
            batch,
            id,
            o,
            entry_turn(o),
            Zone::Battlefield,
        );
        lemma_object_finds(before, event, batch, id, o, entry_turn(o), Zone::Battlefield);
        reveal(permanent_scanned);
        lemma_longer(printed.pending, keyword_triggers(before.game, o, id, event));
        before
    }
}

proof fn lemma_zone_looks(
    p: Pass,
    event: GameEvent,
    batch: Seq<GameEvent>,
    zone: Zone,
    ids: Seq<ObjectId>,
    n: nat,
    k: int,
) -> (q: Pass)
    requires
        0 <= k < n,
        p.game.objects.contains_key(ids[k]),
    ensures
        same_facts(p.game, q.game),
        all_entered(
            q,
            event,
            batch,
            p.game.objects[ids[k]],
            0,
            zone,
            zone_scanned(p, event, batch, zone, ids, n).pending,
        ),
    decreases n,
{
    let before = zone_scanned(p, event, batch, zone, ids, (n - 1) as nat);
    let now = zone_scanned(p, event, batch, zone, ids, n);
    lemma_zone_grown(p, event, batch, zone, ids, (n - 1) as nat);
    let o = p.game.objects[ids[k]];
    if k < n - 1 {
        let q = lemma_zone_looks(p, event, batch, zone, ids, (n - 1) as nat, k);
        if before.game.objects.contains_key(ids[n - 1]) {
            let other = before.game.objects[ids[n - 1]];
            let matched = matched_triggers(
                before.game,
                event,
                batch,
                other,
                0,
                Some(zone),
                before.batched,
                before.registered,
            );
            lemma_entered_grown(before, ids[n - 1], matched, matched.len());
        } else {
            assert(same_facts(before.game, before.game));
        }
        lemma_still_entered(q, event, batch, o, 0, zone, before, now);
        q
    } else {
        lemma_object_finds(before, event, batch, ids[k], o, 0, zone);
        before
    }
}

/// Whether an object is where its triggers are looked for outside the battlefield: a card in a
/// graveyard or in exile, a spell on the stack, an emblem in the command zone.
pub open spec fn lies_in(g: Game, id: ObjectId, zone: Zone) -> bool {
    match zone {
        Zone::Graveyard => exists|i: int|
            0 <= i < g.players.len() && (#[trigger] g.players[i]).graveyard@.contains(id),
        Zone::Exile => g.exile.contains(id),
        Zone::Stack => exists|i: int|
            0 <= i < g.stack.len() && (#[trigger] g.stack[i]).id == id && g.stack[i].kind is Spell,
        Zone::Command => g.command_zone.contains(id) && g.objects.contains_key(id)
            && g.objects[id].is_emblem && !g.objects[id].phased_out,
        _ => false,
    }
}

proof fn lemma_in_graveyards(g: Game, n: nat, i: int, id: ObjectId)
    requires
        0 <= i < n <= g.players.len(),
        g.players[i].graveyard@.contains(id),
    ensures
        graveyards(g, n).contains(id),
    decreases n,
{
    let before = graveyards(g, (n - 1) as nat);
    let own = g.players[n - 1].graveyard@;
    if i < n - 1 {
        lemma_in_graveyards(g, (n - 1) as nat, i, id);
        let k = choose|k: int| 0 <= k < before.len() && before[k] == id;
        assert((before + own)[k] == id);
    } else {
        let k = choose|k: int| 0 <= k < own.len() && own[k] == id;
        assert((before + own)[before.len() + k] == id);
    }
}

proof fn lemma_among_spells(g: Game, n: nat, i: int)
    requires
        0 <= i < n <= g.stack.len(),
        g.stack[i].kind is Spell,
    ensures
        spells_on_stack(g, n).contains(g.stack[i].id),
    decreases n,
{
    let before = spells_on_stack(g, (n - 1) as nat);
    let now = spells_on_stack(g, n);
    let id = g.stack[i].id;
    if i < n - 1 {
        lemma_among_spells(g, (n - 1) as nat, i);
        let k = choose|k: int| 0 <= k < before.len() && before[k] == id;
        assert(now[k] == id);
    } else {
        assert(now[before.len() as int] == id);
    }
}

proof fn lemma_among_emblems(g: Game, n: nat, i: int)
    requires
        0 <= i < n <= g.command_zone.len(),
        g.objects.contains_key(g.command_zone[i]),
        g.objects[g.command_zone[i]].is_emblem,
        !g.objects[g.command_zone[i]].phased_out,
    ensures
        active_emblems(g, n).contains(g.command_zone[i]),
    decreases n,
{
    let before = active_emblems(g, (n - 1) as nat);
    let now = active_emblems(g, n);
    let id = g.command_zone[i];
    if i < n - 1 {
        lemma_among_emblems(g, (n - 1) as nat, i);
        let k = choose|k: int| 0 <= k < before.len() && before[k] == id;
        assert(now[k] == id);
    } else {
        assert(now[before.len() as int] == id);
    }
}

proof fn lemma_sources(g: Game, id: ObjectId, zone: Zone)
    requires
        lies_in(g, id, zone),
    ensures
        trigger_sources(g, zone).contains(id),
{
    reveal(trigger_sources);
    match zone {
        Zone::Graveyard => {
            let i = choose|i: int|
                0 <= i < g.players.len() && (#[trigger] g.players[i]).graveyard@.contains(id);
            lemma_in_graveyards(g, g.players.len(), i, id);
        },
        Zone::Stack => {
            let i = choose|i: int|
                0 <= i < g.stack.len() && (#[trigger] g.stack[i]).id == id
                    && g.stack[i].kind is Spell;
            lemma_among_spells(g, g.stack.len(), i);
        },
        Zone::Command => {
            let i = choose|i: int| 0 <= i < g.command_zone.len() && g.command_zone[i] == id;
            lemma_among_emblems(g, g.command_zone.len(), i);
        },
        _ => {},
    }
}

proof fn lemma_lies_there_still(g: Game, h: Game, id: ObjectId, zone: Zone)
    requires
        same_facts(g, h),
        lies_in(g, id, zone),
    ensures
        lies_in(h, id, zone),
{
    if zone == Zone::Graveyard {
        let i = choose|i: int|
            0 <= i < g.players.len() && (#[trigger] g.players[i]).graveyard@.contains(id);
        assert(h.players[i].graveyard@.contains(id));
    }
}

proof fn lemma_whole_zone_looks(
    p: Pass,
    event: GameEvent,
    batch: Seq<GameEvent>,
    zone: Zone,
    id: ObjectId,
) -> (q: Pass)
    requires
        lies_in(p.game, id, zone),
        p.game.objects.contains_key(id),
    ensures
        same_facts(p.game, q.game),
        all_entered(
            q,
            event,
            batch,
            p.game.objects[id],
            0,
            zone,
            whole_zone_scanned(p, event, batch, zone).pending,
        ),
{
    reveal(whole_zone_scanned);
    lemma_sources(p.game, id, zone);
    let ids = trigger_sources(p.game, zone);
    let k = choose|k: int| 0 <= k < ids.len() && ids[k] == id;
    lemma_zone_looks(p, event, batch, zone, ids, ids.len(), k)
}

/// On an event that is not suppressed every permanent that is phased in is looked at as a
/// permanent, an object that the event took off the battlefield as the permanent that it was, and
/// cards in graveyards and exile, spells on the stack and emblems each as what they are there: all
/// of their printed triggers that are set off are found.
pub proof fn law_looked_at(
    p: Pass,
    event: GameEvent,
    batch: Seq<GameEvent>,
    id: ObjectId,
    zone: Zone,
    turn: u32,
)
    requires
        !suppressed(p.game, event),
        p.game.objects.contains_key(id),
        turn == (match p.game.objects[id].entered_battlefield_turn {
            None => 0,
            Some(entered) => entered,
        }),
    ensures
        ({
            let o = p.game.objects[id];
            let found = event_scanned(p, event, batch).pending;
            &&& is_permanent(p.game, id) ==> exists|q: Pass|
                same_facts(p.game, q.game) && #[trigger] all_entered(
                    q,
                    event,
                    batch,
                    o,
                    turn,
                    Zone::Battlefield,
                    found,
                )
            &&& (event matches GameEvent::ZoneChanged { object_id, from, .. } && object_id == id
                && from == Some(Zone::Battlefield) && o.zone != Zone::Battlefield) ==> exists|
                q: Pass,
            |
                same_facts(p.game, q.game) && #[trigger] all_entered(
                    q,
                    event,
                    batch,
                    o,
                    turn,
                    Zone::Battlefield,
                    found,
                )
            &&& lies_in(p.game, id, zone) ==> exists|q: Pass|
                same_facts(p.game, q.game) && #[trigger] all_entered(
                    q,
                    event,
                    batch,
                    o,
                    0,
                    zone,
                    found,
                )
        }),
{
    let o = p.game.objects[id];
    let fresh = Pass { registered: seq![], ..p };
    let ids = trigger_sources(fresh.game, Zone::Battlefield);
    let permanents = permanents_scanned(fresh, event, batch, ids, ids.len());
    lemma_permanents_grown(fresh, event, batch, ids, ids.len());
    let r = lemma_rest_of_event(permanents, event, batch);
    let end = r.2;
    assert(event_scanned(p, event, batch) == end) by {
        reveal(event_scanned);
    }
    if is_permanent(p.game, id) {
        let i = choose|i: int| 0 <= i < p.game.battlefield.len() && p.game.battlefield[i] == id;
        lemma_phased_in(p.game, p.game.battlefield.len(), i);
        reveal(trigger_sources);
        let k = choose|k: int| 0 <= k < ids.len() && ids[k] == id;
        let q = lemma_permanents_look(fresh, event, batch, ids, ids.len(), k);
        lemma_still_entered(q, event, batch, o, turn, Zone::Battlefield, permanents, end);
        assert(all_entered(q, event, batch, o, turn, Zone::Battlefield, end.pending));
    }
    let departed = departed_scanned(permanents, event, batch);
    lemma_departed_grown(permanents, event, batch);
    let graveyards = whole_zone_scanned(departed, event, batch, Zone::Graveyard);
    lemma_whole_zone_grown(departed, event, batch, Zone::Graveyard);
    let exile = whole_zone_scanned(graveyards, event, batch, Zone::Exile);
    lemma_whole_zone_grown(graveyards, event, batch, Zone::Exile);
    let stack = whole_zone_scanned(exile, event, batch, Zone::Stack);
    lemma_whole_zone_grown(exile, event, batch, Zone::Stack);
    let command = whole_zone_scanned(stack, event, batch, Zone::Command);
    lemma_whole_zone_grown(stack, event, batch, Zone::Command);
    lemma_grown_twice(fresh, permanents, departed);
    lemma_grown_twice(fresh, departed, graveyards);
    lemma_grown_twice(fresh, graveyards, exile);
    lemma_grown_twice(fresh, exile, stack);
    lemma_grown_twice(command, r.1, end);
    lemma_grown_twice(stack, command, end);
    lemma_grown_twice(exile, stack, end);
    lemma_grown_twice(graveyards, exile, end);
    lemma_grown_twice(departed, graveyards, end);
    let left = event matches GameEvent::ZoneChanged { object_id, from, .. } && object_id == id
        && from == Some(Zone::Battlefield) && o.zone != Zone::Battlefield;
    if left {
        lemma_object_finds(permanents, event, batch, id, o, turn, Zone::Battlefield);
        assert(departed == object_scanned(
            permanents,
            event,
            batch,
            id,
            o,
            turn,
            Zone::Battlefield,
        )) by {
            reveal(departed_scanned);
        }
        lemma_still_entered(permanents, event, batch, o, turn, Zone::Battlefield, departed, end);
        assert(all_entered(permanents, event, batch, o, turn, Zone::Battlefield, end.pending));
    }
    if lies_in(p.game, id, zone) {
        let (before, after) = if zone == Zone::Graveyard {
            (departed, graveyards)
        } else if zone == Zone::Exile {
            (graveyards, exile)
        } else if zone == Zone::Stack {
            (exile, stack)
        } else {
            (stack, command)
        };
        lemma_lies_there_still(fresh.game, before.game, id, zone);
        let q = lemma_whole_zone_looks(before, event, batch, zone, id);
        lemma_same_facts_twice(fresh.game, before.game, q.game);
        lemma_still_entered(q, event, batch, o, 0, zone, after, end);
        assert(all_entered(q, event, batch, o, 0, zone, end.pending));
    }
}

/// A trigger that is found is among those that are set off.
pub proof fn lemma_found_set_off(g: Game, batch: Seq<GameEvent>, x: PendingTriggerContext)
    requires
        scanned(g, batch, batch.len()).pending.contains(x),
    ensures
        triggers_set_off(g, batch).contains(x),
{
    broadcast use vstd::seq_lib::group_to_multiset_ensures;

    let pass = scanned(g, batch, batch.len());
    let all = with_doubles(pass.game, pass.pending);
    assert(all.contains(x)) by {
        reveal(with_doubles);
        let i = choose|i: int| 0 <= i < pass.pending.len() && pass.pending[i] == x;
        assert(all[i] == x);
    }
    law_stack_order(pass.game.active_player, all);
    assert(all.to_multiset().count(x) > 0);
    assert(triggers_set_off(g, batch).to_multiset().count(x) > 0);
}

/// Whether an ability has no target to choose and is put on the stack as it is.
pub open spec fn goes_on_stack(trigger: PendingTrigger) -> bool {
    &&& trigger.modal is None
    &&& forall|g: Game| #[trigger] chain_slots(g, trigger.ability, false) == Some(
        Seq::<crate::targeting::TargetSlot>::empty(),
    )
    &&& !is_mana_ability(trigger.ability, trigger.trigger_event)
}

/// Whether an entry of the stack is an ability, triggered by an event, that a source and a player
/// have put there.
pub open spec fn is_ability(
    entry: StackEntry,
    source: ObjectId,
    controller: PlayerId,
    ability: ResolvedAbility,
    event: GameEvent,
) -> bool {
    &&& entry.source_id == source
    &&& entry.controller == controller
    &&& entry.kind matches StackEntryKind::TriggeredAbility {
        source_id,
        ability: found,
        trigger_event,
        ..
    }
    &&& source_id == source
    &&& found == ability
    &&& trigger_event == Some(event)
}

/// Whether such an ability has come on top of the stack of a game.
pub open spec fn newly_stacked(
    before: Game,
    after: Game,
    source: ObjectId,
    controller: PlayerId,
    ability: ResolvedAbility,
    event: GameEvent,
) -> bool {
    exists|j: int|
        before.stack.len() <= j < after.stack.len() && is_ability(
            #[trigger] after.stack[j],
            source,
            controller,
            ability,
            event,
        )
}

/// The ability of a trigger as it goes on the stack.
pub open spec fn stacked_ability(trigger: PendingTrigger) -> ResolvedAbility {
    match trigger.may_trigger_origin {
        None => trigger.ability,
        Some(origin) => trigger.ability.with_may_trigger_origin(origin),
    }
}

proof fn lemma_one_placed_on(g: Game, context: PendingTriggerContext)
    ensures
        ({
            let r = one_placed(g, context);
            &&& g.stack.is_prefix_of(r.game.stack)
            &&& goes_on_stack(context.pending) && context.pending.trigger_event is Some ==> {
                &&& r.game.stack.len() == g.stack.len() + 1
                &&& is_ability(
                    r.game.stack.last(),
                    context.pending.source_id,
                    context.pending.controller,
                    stacked_ability(context.pending),
                    context.pending.trigger_event->0,
                )
            }
        }),
{
    reveal(one_placed);
    reveal(pushed);
    if goes_on_stack(context.pending) {
        assert(chain_slots(g, context.pending.ability, false) == Some(
            Seq::<crate::targeting::TargetSlot>::empty(),
        ));
    }
}

/// A trigger without targets that is set off goes on the stack, unless an earlier one stops the
/// others for its controller to decide on.
proof fn lemma_placed_on(g: Game, order: Seq<PendingTriggerContext>, n: nat, k: int)
    requires
        0 <= k < n <= order.len(),
        goes_on_stack(order[k].pending),
        order[k].pending.trigger_event is Some,
        !placed(g, order, n).stopped,
    ensures
        newly_stacked(
            g,
            placed(g, order, n).game,
            order[k].pending.source_id,
            order[k].pending.controller,
            stacked_ability(order[k].pending),
            order[k].pending.trigger_event->0,
        ),
    decreases n,
{
    let before = placed(g, order, (n - 1) as nat);
    let now = placed(g, order, n);
    let t = order[k].pending;
    lemma_one_placed_on(before.game, order[n - 1]);
    lemma_stack_grows(g, order, (n - 1) as nat);
    if k < n - 1 {
        lemma_placed_on(g, order, (n - 1) as nat, k);
        let j = choose|j: int|
            g.stack.len() <= j < before.game.stack.len() && is_ability(
                #[trigger] before.game.stack[j],
                t.source_id,
                t.controller,
                stacked_ability(t),
                t.trigger_event->0,
            );
        assert(now.game.stack[j] == before.game.stack[j]);
    } else {
        assert(is_ability(
            now.game.stack[now.game.stack.len() - 1],
            t.source_id,
            t.controller,
            stacked_ability(t),
            t.trigger_event->0,
        ));
    }
}

proof fn lemma_stack_grows(g: Game, order: Seq<PendingTriggerContext>, n: nat)
    ensures
        g.stack.is_prefix_of(placed(g, order, n).game.stack),
    decreases n,
{
    if n > 0 {
        lemma_stack_grows(g, order, (n - 1) as nat);
        lemma_one_placed_on(placed(g, order, (n - 1) as nat).game, order[n - 1]);
    }
}

/// A trigger without targets that is found is on the stack once triggers have been processed,
/// unless one of them is set aside.
pub proof fn lemma_found_stacked(g: Game, events: Seq<GameEvent>, x: PendingTriggerContext)
    requires
        scanned(up_to_date(g), events, events.len()).pending.contains(x),
        goes_on_stack(x.pending),
        x.pending.trigger_event is Some,
        triggers_processed(g, events).pending_trigger is None,
    ensures
        newly_stacked(
            g,
            triggers_processed(g, events),
            x.pending.source_id,
            x.pending.controller,
            stacked_ability(x.pending),
            x.pending.trigger_event->0,
        ),
{
    let current = up_to_date(g);
    let found = scanned(current, events, events.len()).game;
    let order = triggers_set_off(current, events);
    law_layers_keep_table(g);
    law_scan_keeps_table(current, events, events.len());
    lemma_found_set_off(current, events, x);
    let k = choose|k: int| 0 <= k < order.len() && order[k] == x;
    law_placing(found, order, order.len());
    let end = placed(found, order, order.len());
    lemma_placed_on(found, order, order.len(), k);
    let t = x.pending;
    let j = choose|j: int|
        found.stack.len() <= j < end.game.stack.len() && is_ability(
            #[trigger] end.game.stack[j],
            t.source_id,
            t.controller,
            stacked_ability(t),
            t.trigger_event->0,
        );
    assert(is_ability(
        triggers_processed(g, events).stack[j],
        t.source_id,
        t.controller,
        stacked_ability(t),
        t.trigger_event->0,
    ));
}

/// An ability that does one thing, with no target, cost, condition or choice.
pub open spec fn bare_ability(
    effect: Effect,
    source_id: ObjectId,
    controller: PlayerId,
) -> ResolvedAbility {
    ResolvedAbility {
        kind: AbilityKind::Spell,
        effect: Rc::new(effect),
        targets: list_of(seq![]),
        source_id,
        controller,
        sub_ability: None,
        description: None,
        condition: None,
        duration: None,
        optional: false,
        optional_targeting: false,
        multi_target: None,
        target_selection_mode: TargetSelectionMode::Chosen,
        distribution: None,
        context: SpellContext {
            additional_cost_paid: false,
            cast_from_zone: None,
            kickers_paid: list_of(seq![]),
        },
        unless_pay: None,
        scoped_player: None,
        player_scope: None,
        may_trigger_origin: None,
        ability_index: None,
        repeat_for: None,
    }
}

/// A trigger that no card prints, set off by one event.
pub open spec fn bare_trigger(
    source_id: ObjectId,
    controller: PlayerId,
    condition: Option<Rc<TriggerCondition>>,
    ability: ResolvedAbility,
    timestamp: u32,
    event: GameEvent,
    description: Option<Text>,
    origin: Option<MayTriggerOrigin>,
) -> PendingTriggerContext {
    PendingTriggerContext {
        pending: PendingTrigger {
            source_id,
            controller,
            condition,
            ability,
            timestamp,
            target_constraints: list_of(seq![]),
            distribute: None,
            trigger_event: Some(event),
            modal: None,
            mode_abilities: None,
            description,
            may_trigger_origin: origin,
        },
        trigger_events: list_of(seq![event]),
    }
}

} // verus!
