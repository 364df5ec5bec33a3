//! What holds of triggers as a whole: what doubles them, how often they fire, what is on the
//! stack afterwards, and what is left waiting.

use crate::ability::{ResolvedAbility, TriggerDefinition};
use crate::events::GameEvent;
use crate::functioning::active_triggers;
use crate::id_map::at;
use crate::ids::{ObjectId, Zone};
use crate::layers::law_layers_keep_table;
use crate::list::{list_rest, List};
use crate::object::GameObject;
use crate::state::{Game, StackEntry, StackEntryKind};
use crate::triggers::collect::{
    fires, matched_from, matched_of, matched_triggers, suppressed, MatchedTrigger,
    PendingTriggerContext,
};
use crate::triggers::conditions::with_key;
use crate::triggers::delayed::{
    all_pushed, delayed_kept, is_state_ability, one_shot_fired, set_off_by, state_condition_holds,
    state_trigger, state_trigger_fires, state_triggers, state_triggers_checked, state_triggers_of,
    waits_on_stack,
};
use crate::triggers::order::{law_stack_order, precedes, stack_order};
use crate::triggers::placing::{
    doubled, doubled_by, doubles, doubling_static, one_placed, placed, pushed, with_doubles,
};
use crate::triggers::scan::{entered, event_scanned, law_scan_keeps_table, scanned, Pass};
use crate::triggers::{triggers_processed, triggers_set_off, up_to_date, PendingTrigger};
use vstd::prelude::*;

verus! {

/// Whether a permanent makes a trigger happen once more.
pub open spec fn doubled_at(g: Game, id: ObjectId, trigger: PendingTrigger) -> bool {
    match g.object(id) {
        None => false,
        Some(o) => match doubling_static(g, o, o.static_definitions) {
            None => false,
            Some(def) => doubles(g, id, o, def, trigger),
        },
    }
}

/// How many of the first `n` permanents make a trigger happen once more.
pub open spec fn times_doubled(g: Game, trigger: PendingTrigger, n: nat) -> nat
    decreases n,
{
    if n == 0 {
        0
    } else {
        times_doubled(g, trigger, (n - 1) as nat) + (if doubled_at(
            g,
            g.battlefield[n - 1],
            trigger,
        ) {
            1nat
        } else {
            0nat
        })
    }
}

proof fn lemma_doubled_by(
    g: Game,
    id: ObjectId,
    o: GameObject,
    def: crate::ability::StaticDefinition,
    pending: Seq<PendingTriggerContext>,
    n: nat,
    x: PendingTriggerContext,
)
    requires
        n <= pending.len(),
    ensures
        doubled_by(g, id, o, def, pending, n).to_multiset().count(x) == if doubles(
            g,
            id,
            o,
            def,
            x.pending,
        ) {
            pending.take(n as int).to_multiset().count(x)
        } else {
            0
        },
    decreases n,
{
    broadcast use vstd::seq_lib::group_to_multiset_ensures;

    if n > 0 {
        lemma_doubled_by(g, id, o, def, pending, (n - 1) as nat, x);
        assert(pending.take(n as int) =~= pending.take(n - 1).push(pending[n - 1]));
    }
}

proof fn lemma_doubled(
    g: Game,
    pending: Seq<PendingTriggerContext>,
    n: nat,
    x: PendingTriggerContext,
)
    requires
        n <= g.battlefield.len(),
    ensures
        doubled(g, pending, n).to_multiset().count(x) == pending.to_multiset().count(x)
            * times_doubled(g, x.pending, n),
    decreases n,
{
    broadcast use vstd::seq_lib::group_to_multiset_ensures;

    let c = pending.to_multiset().count(x);
    if n > 0 {
        lemma_doubled(g, pending, (n - 1) as nat, x);
        let before = doubled(g, pending, (n - 1) as nat);
        let t = times_doubled(g, x.pending, (n - 1) as nat);
        let id = g.battlefield[n - 1];
        assert(c * (t + 1) == c * t + c) by (nonlinear_arith);
        if let Some(o) = g.object(id) {
            if let Some(def) = doubling_static(g, o, o.static_definitions) {
                lemma_doubled_by(g, id, o, def, pending, pending.len(), x);
                assert(pending.take(pending.len() as int) =~= pending);
                let more = doubled_by(g, id, o, def, pending, pending.len());
                vstd::seq_lib::lemma_multiset_commutative(before, more);
            }
        }
    } else {
        assert(c * 0 == 0);
    }
}

/// Every trigger happens once more for each permanent that doubles it, no more and no less, and
/// nothing else is added (CR 603.2d).
pub proof fn law_doubling(g: Game, pending: Seq<PendingTriggerContext>, x: PendingTriggerContext)
    ensures
        with_doubles(g, pending).to_multiset().count(x) == pending.to_multiset().count(x) * (1
            + times_doubled(g, x.pending, g.battlefield.len())),
{
    reveal(with_doubles);
    let n = g.battlefield.len();
    let c = pending.to_multiset().count(x);
    let t = times_doubled(g, x.pending, n);
    lemma_doubled(g, pending, n, x);
    vstd::seq_lib::lemma_multiset_commutative(pending, doubled(g, pending, n));
    assert(c * (1 + t) == c + c * t) by (nonlinear_arith);
}

proof fn lemma_matched_fresh(
    g: Game,
    event: GameEvent,
    batch: Seq<GameEvent>,
    o: GameObject,
    defs: List<TriggerDefinition>,
    idx: usize,
    timestamp: u32,
    zone: Option<Zone>,
    batched: Seq<(ObjectId, usize)>,
    registered: Seq<(ObjectId, usize)>,
)
    ensures
        ({
            let matched = matched_from(
                g,
                event,
                batch,
                o,
                defs,
                idx,
                timestamp,
                zone,
                batched,
                registered,
            );
            forall|i: int|
                0 <= i < matched.len() ==> !registered.contains(
                    (o.id, (#[trigger] matched[i]).trig_idx),
                ) && (matched[i].batched ==> !batched.contains((o.id, matched[i].trig_idx)))
        }),
    decreases defs,
{
    if defs.node is Some {
        let next = crate::triggers::collect::next_index(idx);
        let rest = list_rest(defs);
        lemma_matched_fresh(
            g,
            event,
            batch,
            o,
            rest,
            next,
            timestamp,
            zone,
            batched,
            registered,
        );
        let def = *defs.node->0.item;
        let here = matched_of(
            g,
            event,
            batch,
            o,
            def,
            idx,
            timestamp,
            zone,
            batched,
            registered,
        );
        let there = matched_from(
            g,
            event,
            batch,
            o,
            rest,
            next,
            timestamp,
            zone,
            batched,
            registered,
        );
        let matched = here + there;
        assert forall|i: int| 0 <= i < matched.len() implies !registered.contains(
            (o.id, (#[trigger] matched[i]).trig_idx),
        ) && (matched[i].batched ==> !batched.contains((o.id, matched[i].trig_idx))) by {
            if i >= here.len() {
                assert(matched[i] == there[i - here.len()]);
            } else {
                assert(fires(g, event, o, def, idx, zone, batched, registered));
            }
        }
    }
}

proof fn lemma_key_kept(
    keys: Seq<(ObjectId, usize)>,
    key: (ObjectId, usize),
    other: (ObjectId, usize),
)
    ensures
        with_key(keys, key).contains(key),
        keys.contains(other) ==> with_key(keys, key).contains(other),
{
    let after = with_key(keys, key);
    if !keys.contains(key) {
        assert(after[keys.len() as int] == key);
        if keys.contains(other) {
            let i = choose|i: int| 0 <= i < keys.len() && keys[i] == other;
            assert(after[i] == other);
        }
    }
}

proof fn lemma_entered_keys(p: Pass, id: ObjectId, matched: Seq<MatchedTrigger>, n: nat, j: int)
    requires
        0 <= j < n <= matched.len(),
    ensures
        entered(p, id, matched, n).registered.contains((id, matched[j].trig_idx)),
        matched[j].batched ==> entered(p, id, matched, n).batched.contains(
            (id, matched[j].trig_idx),
        ),
    decreases n,
{
    let before = entered(p, id, matched, (n - 1) as nat);
    let key = (id, matched[n - 1].trig_idx);
    lemma_key_kept(before.registered, key, (id, matched[j].trig_idx));
    lemma_key_kept(before.batched, key, (id, matched[j].trig_idx));
    if j < n - 1 {
        lemma_entered_keys(p, id, matched, (n - 1) as nat, j);
    }
}

/// A printed trigger that an event has set off is not set off by it again, from whatever zone
/// the object is looked at next (CR 603.2).
pub proof fn law_once_per_event(
    p: Pass,
    event: GameEvent,
    batch: Seq<GameEvent>,
    o: GameObject,
    timestamp: u32,
    zone: Option<Zone>,
    next: Game,
    o_next: GameObject,
    timestamp_next: u32,
    zone_next: Option<Zone>,
)
    requires
        o_next.id == o.id,
    ensures
        ({
            let first = matched_triggers(
                p.game,
                event,
                batch,
                o,
                timestamp,
                zone,
                p.batched,
                p.registered,
            );
            let after = entered(p, o.id, first, first.len());
            let second = matched_triggers(
                next,
                event,
                batch,
                o_next,
                timestamp_next,
                zone_next,
                after.batched,
                after.registered,
            );
            forall|i: int, j: int|
                0 <= i < first.len() && 0 <= j < second.len() ==> (#[trigger] first[i]).trig_idx
                    != (#[trigger] second[j]).trig_idx
        }),
{
    reveal(matched_triggers);
    let first = matched_triggers(
        p.game,
        event,
        batch,
        o,
        timestamp,
        zone,
        p.batched,
        p.registered,
    );
    let after = entered(p, o.id, first, first.len());
    let second = matched_triggers(
        next,
        event,
        batch,
        o_next,
        timestamp_next,
        zone_next,
        after.batched,
        after.registered,
    );
    lemma_matched_fresh(
        next,
        event,
        batch,
        o_next,
        active_triggers(o_next),
        0,
        timestamp_next,
        zone_next,
        after.batched,
        after.registered,
    );
    assert forall|i: int, j: int| 0 <= i < first.len() && 0 <= j < second.len() implies (
    #[trigger] first[i]).trig_idx != (#[trigger] second[j]).trig_idx by {
        lemma_entered_keys(p, o.id, first, first.len(), i);
        assert(!after.registered.contains((o.id, second[j].trig_idx)));
    }
}

/// A trigger that fires on "one or more" events is set off once by a whole batch of them, however
/// many of them it watches for (CR 603.2c).
pub proof fn law_once_per_batch(
    p: Pass,
    event: GameEvent,
    batch: Seq<GameEvent>,
    o: GameObject,
    timestamp: u32,
    zone: Option<Zone>,
    next: Game,
    later: GameEvent,
    o_next: GameObject,
    timestamp_next: u32,
    zone_next: Option<Zone>,
    registered: Seq<(ObjectId, usize)>,
)
    requires
        o_next.id == o.id,
    ensures
        ({
            let first = matched_triggers(
                p.game,
                event,
                batch,
                o,
                timestamp,
                zone,
                p.batched,
                p.registered,
            );
            let after = entered(p, o.id, first, first.len());
            let second = matched_triggers(
                next,
                later,
                batch,
                o_next,
                timestamp_next,
                zone_next,
                after.batched,
                registered,
            );
            forall|i: int, j: int|
                0 <= i < first.len() && 0 <= j < second.len() && (#[trigger] first[i]).batched && (
                #[trigger] second[j]).batched ==> first[i].trig_idx != second[j].trig_idx
        }),
{
    reveal(matched_triggers);
    let first = matched_triggers(
        p.game,
        event,
        batch,
        o,
        timestamp,
        zone,
        p.batched,
        p.registered,
    );
    let after = entered(p, o.id, first, first.len());
    let second = matched_triggers(
        next,
        later,
        batch,
        o_next,
        timestamp_next,
        zone_next,
        after.batched,
        registered,
    );
    lemma_matched_fresh(
        next,
        later,
        batch,
        o_next,
        active_triggers(o_next),
        0,
        timestamp_next,
        zone_next,
        after.batched,
        registered,
    );
    assert forall|i: int, j: int|
        0 <= i < first.len() && 0 <= j < second.len() && (#[trigger] first[i]).batched && (
        #[trigger] second[j]).batched implies first[i].trig_idx != second[j].trig_idx by {
        lemma_entered_keys(p, o.id, first, first.len(), i);
        assert(!after.batched.contains((o.id, second[j].trig_idx)));
    }
}

/// An event that is suppressed triggers nothing and changes nothing (CR 603.2g).
pub proof fn law_suppressed(p: Pass, event: GameEvent, batch: Seq<GameEvent>)
    requires
        suppressed(p.game, event),
    ensures
        event_scanned(p, event, batch) == p,
{
    reveal(event_scanned);
}

/// Whether an entry of the stack is the ability of a trigger, whatever targets it was given.
pub open spec fn comes_from(entry: StackEntry, trigger: PendingTrigger) -> bool {
    &&& entry.source_id == trigger.source_id
    &&& entry.controller == trigger.controller
    &&& match entry.kind {
        StackEntryKind::TriggeredAbility { condition, trigger_event, description, .. } => condition
            == trigger.condition && trigger_event == trigger.trigger_event && description
            == trigger.description,
        _ => false,
    }
}

/// The ability of a trigger as it goes on the stack.
pub open spec fn ability_of(trigger: PendingTrigger) -> ResolvedAbility {
    match trigger.may_trigger_origin {
        None => trigger.ability,
        Some(origin) => trigger.ability.with_may_trigger_origin(origin),
    }
}

/// Whether a stack is another with some triggered abilities on top, one for each of some
/// triggers, in the order of those.
pub open spec fn stacked(
    before: Seq<StackEntry>,
    after: Seq<StackEntry>,
    order: Seq<PendingTrigger>,
) -> bool {
    &&& after.len() == before.len() + order.len()
    &&& forall|i: int| 0 <= i < before.len() ==> #[trigger] after[i] == before[i]
    &&& forall|i: int|
        before.len() <= i < after.len() ==> comes_from(
            #[trigger] after[i],
            order[i - before.len()],
        ) && after[i].ability_spec() == Some(ability_of(order[i - before.len()]))
}

/// Triggers that are put on the stack lie there on top of what was there, in the order in which
/// they were put.
pub proof fn law_pushed(g: Game, order: Seq<PendingTrigger>, n: nat)
    requires
        n <= order.len(),
    ensures
        stacked(g.stack, all_pushed(g, order, n).stack, order.take(n as int)),
    decreases n,
{
    if n > 0 {
        law_pushed(g, order, (n - 1) as nat);
        reveal(pushed);
        let before = all_pushed(g, order, (n - 1) as nat).stack;
        let after = all_pushed(g, order, n).stack;
        let part = order.take(n as int);
        assert forall|i: int| g.stack.len() <= i < after.len() implies comes_from(
            #[trigger] after[i],
            part[i - g.stack.len()],
        ) && after[i].ability_spec() == Some(ability_of(part[i - g.stack.len()])) by {
            if i < before.len() {
                assert(after[i] == before[i]);
                assert(order.take(n - 1)[i - g.stack.len()] == part[i - g.stack.len()]);
            }
        }
        assert forall|i: int| 0 <= i < g.stack.len() implies #[trigger] after[i] == g.stack[i] by {
            assert(after[i] == before[i]);
        }
    }
}

/// No state trigger fires whose own ability is on the stack.
proof fn lemma_own_triggers(
    g: Game,
    id: ObjectId,
    o: GameObject,
    defs: List<TriggerDefinition>,
    idx: usize,
)
    ensures
        forall|i: int|
            0 <= i < state_triggers_of(g, id, o, defs, idx).len() ==> fresh_state_trigger(
                g,
                #[trigger] state_triggers_of(g, id, o, defs, idx)[i],
            ),
    decreases defs,
{
    if defs.node is Some {
        let rest = list_rest(defs);
        let next = crate::triggers::collect::next_index(idx);
        lemma_own_triggers(g, id, o, rest, next);
        let there = state_triggers_of(g, id, o, rest, next);
        let all = state_triggers_of(g, id, o, defs, idx);
        assert forall|i: int| 0 <= i < all.len() implies fresh_state_trigger(
            g,
            #[trigger] all[i],
        ) by {
            if all.len() > there.len() {
                if i > 0 {
                    assert(all[i] == there[i - 1]);
                }
            } else {
                assert(all[i] == there[i]);
            }
        }
    }
}

/// Whether a trigger is a state trigger whose own ability is not on the stack.
spec fn fresh_state_trigger(g: Game, t: PendingTrigger) -> bool {
    &&& t.trigger_event is None
    &&& t.may_trigger_origin is None
    &&& t.ability.ability_index matches Some(idx) && !waits_on_stack(g, t.source_id, idx)
}

proof fn lemma_all_own_triggers(g: Game, n: nat)
    ensures
        forall|i: int|
            0 <= i < state_triggers(g, n).len() ==> fresh_state_trigger(
                g,
                #[trigger] state_triggers(g, n)[i],
            ),
    decreases n,
{
    if n > 0 {
        lemma_all_own_triggers(g, (n - 1) as nat);
        let before = state_triggers(g, (n - 1) as nat);
        let id = g.battlefield[n - 1];
        if g.object(id) is Some && g.object(id)->0.zone == Zone::Battlefield {
            let o = g.object(id)->0;
            lemma_own_triggers(g, id, o, active_triggers(o), 0);
            let own = state_triggers_of(g, id, o, active_triggers(o), 0);
            let all = state_triggers(g, n);
            assert(all == before + own);
            assert forall|i: int| 0 <= i < all.len() implies fresh_state_trigger(
                g,
                #[trigger] all[i],
            ) by {
                if i < before.len() {
                    assert(all[i] == before[i]);
                } else {
                    assert(all[i] == own[i - before.len()]);
                }
            }
        }
    }
}

/// A state trigger that fires is among those of its permanent.
proof fn lemma_fires_among(
    g: Game,
    id: ObjectId,
    o: GameObject,
    defs: List<TriggerDefinition>,
    from: usize,
    i: int,
) -> (j: int)
    requires
        0 <= i < defs@.len(),
        from + i <= usize::MAX,
        state_trigger_fires(g, id, o, defs@[i], (from + i) as usize),
    ensures
        0 <= j < state_triggers_of(g, id, o, defs, from).len(),
        state_triggers_of(g, id, o, defs, from)[j] == state_trigger(
            id,
            o,
            defs@[i],
            (from + i) as usize,
        ),
    decreases i,
{
    let all = state_triggers_of(g, id, o, defs, from);
    if i == 0 {
        0
    } else {
        let rest = list_rest(defs);
        let next = crate::triggers::collect::next_index(from);
        assert(defs@[i] == rest@[i - 1]);
        let j = lemma_fires_among(g, id, o, rest, next, i - 1);
        let there = state_triggers_of(g, id, o, rest, next);
        if all.len() > there.len() {
            assert(all[j + 1] == there[j]);
            j + 1
        } else {
            j
        }
    }
}

proof fn lemma_state_trigger_found(g: Game, n: nat, k: int, o: GameObject, i: int) -> (j: int)
    requires
        0 <= k < n <= g.battlefield.len(),
        g.object(g.battlefield[k]) == Some(o),
        o.zone == Zone::Battlefield,
        0 <= i < active_triggers(o)@.len(),
        i <= usize::MAX,
        state_trigger_fires(g, g.battlefield[k], o, active_triggers(o)@[i], i as usize),
    ensures
        0 <= j < state_triggers(g, n).len(),
        state_triggers(g, n)[j] == state_trigger(
            g.battlefield[k],
            o,
            active_triggers(o)@[i],
            i as usize,
        ),
    decreases n,
{
    let before = state_triggers(g, (n - 1) as nat);
    if k == n - 1 {
        let j = lemma_fires_among(g, g.battlefield[k], o, active_triggers(o), 0, i);
        let own = state_triggers_of(g, g.battlefield[k], o, active_triggers(o), 0);
        assert(state_triggers(g, n) == before + own);
        assert((before + own)[before.len() + j] == own[j]);
        before.len() + j
    } else {
        let j = lemma_state_trigger_found(g, (n - 1) as nat, k, o, i);
        assert(state_triggers(g, n)[j] == before[j]);
        j
    }
}

/// A state trigger whose condition holds is on the stack once state triggers have been checked:
/// it goes there, unless its ability is there already. Nothing else that is on the stack holds
/// it back (CR 603.8).
pub proof fn law_state_trigger_fires(g: Game, k: int, o: GameObject, i: int)
    requires
        0 <= k < g.battlefield.len(),
        g.object(g.battlefield[k]) == Some(o),
        o.zone == Zone::Battlefield,
        0 <= i < active_triggers(o)@.len(),
        i <= usize::MAX,
        state_condition_holds(g, g.battlefield[k], o, active_triggers(o)@[i]),
    ensures
        waits_on_stack(state_triggers_checked(g), g.battlefield[k], i as usize),
        !waits_on_stack(g, g.battlefield[k], i as usize) ==> exists|j: int|
            g.stack.len() <= j < state_triggers_checked(g).stack.len() && is_state_ability(
                #[trigger] state_triggers_checked(g).stack[j],
                g.battlefield[k],
                i as usize,
            ),
{
    broadcast use vstd::seq_lib::group_to_multiset_ensures;

    let id = g.battlefield[k];
    let n = g.battlefield.len();
    let found = state_triggers(g, n);
    let order = stack_order(g.active_player, found);
    law_pushed(g, order, order.len());
    assert(order.take(order.len() as int) =~= order);
    let after = state_triggers_checked(g);
    if waits_on_stack(g, id, i as usize) {
        let j = choose|j: int|
            0 <= j < g.stack.len() && is_state_ability(#[trigger] g.stack[j], id, i as usize);
        assert(after.stack[j] == g.stack[j]);
    } else {
        let j = lemma_state_trigger_found(g, n, k, o, i);
        law_stack_order(g.active_player, found);
        assert(found.contains(found[j]));
        assert(found.to_multiset().count(found[j]) > 0);
        assert(order.to_multiset().count(found[j]) > 0);
        let at = choose|at: int| 0 <= at < order.len() && order[at] == found[j];
        assert(is_state_ability(after.stack[g.stack.len() + at], id, i as usize));
    }
}

/// A state trigger does not fire again until its ability has left the stack (CR 603.8): as long
/// as the ability is there, checking state triggers adds no other one of it.
pub proof fn law_state_trigger_waits(g: Game, id: ObjectId, idx: usize, j: int)
    requires
        waits_on_stack(g, id, idx),
        g.stack.len() <= j < state_triggers_checked(g).stack.len(),
    ensures
        !is_state_ability(state_triggers_checked(g).stack[j], id, idx),
{
    broadcast use vstd::seq_lib::group_to_multiset_ensures;

    let n = g.battlefield.len();
    let found = state_triggers(g, n);
    let order = stack_order(g.active_player, found);
    law_pushed(g, order, order.len());
    assert(order.take(order.len() as int) =~= order);
    law_stack_order(g.active_player, found);
    lemma_all_own_triggers(g, n);
    let t = order[j - g.stack.len()];
    assert(order.contains(t));
    assert(order.to_multiset().count(t) > 0);
    assert(found.to_multiset().count(t) > 0);
    let i = choose|i: int| 0 <= i < found.len() && found[i] == t;
    assert(fresh_state_trigger(g, found[i]));
}

/// A delayed trigger that goes off once is gone once it has gone off, and every other one stays
/// (CR 603.7).
pub proof fn law_delayed_spent(g: Game, events: Seq<GameEvent>, n: nat)
    requires
        n <= g.delayed_triggers.len(),
    ensures
        delayed_kept(g, events, n).len() + one_shot_fired(g, events, n).len() == n,
        forall|i: int|
            0 <= i < delayed_kept(g, events, n).len() ==> exists|j: int|
                0 <= j < n && #[trigger] g.delayed_triggers[j] == (
                #[trigger] delayed_kept(g, events, n)[i]) && !(g.delayed_triggers[j].one_shot
                    && set_off_by(g, events, j) is Some),
        forall|j: int|
            0 <= j < n && !(g.delayed_triggers[j].one_shot && set_off_by(g, events, j) is Some)
                ==> delayed_kept(g, events, n).contains(#[trigger] g.delayed_triggers[j]),
    decreases n,
{
    if n > 0 {
        law_delayed_spent(g, events, (n - 1) as nat);
        let before = delayed_kept(g, events, (n - 1) as nat);
        let now = delayed_kept(g, events, n);
        assert forall|i: int| 0 <= i < now.len() implies exists|j: int|
            0 <= j < n && #[trigger] g.delayed_triggers[j] == (#[trigger] now[i]) && !(
            g.delayed_triggers[j].one_shot && set_off_by(g, events, j) is Some) by {
            if i < before.len() {
                assert(now[i] == before[i]);
                let j = choose|j: int|
                    0 <= j < n - 1 && #[trigger] g.delayed_triggers[j] == before[i] && !(
                    g.delayed_triggers[j].one_shot && set_off_by(g, events, j) is Some);
                assert(g.delayed_triggers[j] == now[i]);
            } else {
                assert(g.delayed_triggers[n - 1] == now[i]);
            }
        }
        assert forall|j: int|
            0 <= j < n && !(g.delayed_triggers[j].one_shot && set_off_by(g, events, j)
                is Some) implies now.contains(#[trigger] g.delayed_triggers[j]) by {
            if j < n - 1 {
                assert(before.contains(g.delayed_triggers[j]));
                let i = choose|i: int| 0 <= i < before.len() && before[i] == g.delayed_triggers[j];
                assert(now[i] == g.delayed_triggers[j]);
            } else {
                assert(now[before.len() as int] == g.delayed_triggers[j]);
            }
        }
    }
}

proof fn lemma_one_placed(g: Game, context: PendingTriggerContext)
    ensures
        ({
            let r = one_placed(g, context);
            &&& g.stack.is_prefix_of(r.game.stack)
            &&& r.game.stack.len() <= g.stack.len() + 1
            &&& r.game.stack.len() > g.stack.len() ==> comes_from(
                r.game.stack.last(),
                context.pending,
            )
            &&& r.stopped ==> r.game.pending_trigger is Some && r.game.stack == g.stack
            &&& !r.stopped ==> r.game.pending_trigger == g.pending_trigger
        }),
{
    reveal(one_placed);
    reveal(pushed);
}

/// Whether a stack is another with some triggered abilities on top, which are those of the
/// triggers that stand at `at` among some triggers, in the order of those.
pub open spec fn stacked_from(
    before: Seq<StackEntry>,
    after: Seq<StackEntry>,
    order: Seq<PendingTriggerContext>,
    at: Seq<int>,
) -> bool {
    &&& before.is_prefix_of(after)
    &&& after.len() == before.len() + at.len()
    &&& forall|i: int| 0 <= i < at.len() ==> 0 <= #[trigger] at[i] < order.len()
    &&& forall|i: int, j: int| 0 <= i < j < at.len() ==> #[trigger] at[i] < #[trigger] at[j]
    &&& forall|i: int|
        0 <= i < at.len() ==> comes_from(
            #[trigger] after[before.len() + i],
            order[at[i]].pending,
        )
}

/// Placing triggers touches nothing that is on the stack. On top of it come abilities of the
/// triggers, each at most once and in their order. It stops only with a trigger set aside for
/// its controller to decide on.
pub proof fn law_placing(g: Game, order: Seq<PendingTriggerContext>, n: nat)
    requires
        n <= order.len(),
    ensures
        ({
            let r = placed(g, order, n);
            &&& exists|at: Seq<int>| stacked_from(g.stack, r.game.stack, order.take(n as int), at)
            &&& r.stopped ==> r.game.pending_trigger is Some
            &&& !r.stopped ==> r.game.pending_trigger == g.pending_trigger
        }),
    decreases n,
{
    let part = order.take(n as int);
    let r = placed(g, order, n);
    if n == 0 {
        assert(stacked_from(g.stack, r.game.stack, part, seq![]));
    } else {
        law_placing(g, order, (n - 1) as nat);
        let before = placed(g, order, (n - 1) as nat);
        lemma_one_placed(before.game, order[n - 1]);
        let less = order.take(n - 1);
        let at = choose|at: Seq<int>| stacked_from(g.stack, before.game.stack, less, at);
        let now = if r.game.stack.len() > before.game.stack.len() {
            at.push(n - 1)
        } else {
            at
        };
        assert(before.game.stack.is_prefix_of(r.game.stack));
        assert forall|i: int| 0 <= i < now.len() implies comes_from(
            #[trigger] r.game.stack[g.stack.len() + i],
            part[now[i]].pending,
        ) by {
            if i < at.len() {
                assert(r.game.stack[g.stack.len() + i] == before.game.stack[g.stack.len() + i]);
                assert(part[now[i]] == less[at[i]]);
            }
        }
        assert(stacked_from(g.stack, r.game.stack, part, now));
    }
}

/// Once triggers have been processed, what they put on the stack lies there in stack order: of
/// two abilities the one whose trigger precedes the other's lies above it, so that it resolves
/// first (CR 603.3b).
pub proof fn law_processed_order(g: Game, events: Seq<GameEvent>)
    ensures
        ({
            let order = triggers_set_off(up_to_date(g), events);
            exists|at: Seq<int>|
                #![trigger stacked_from(g.stack, triggers_processed(g, events).stack, order, at)]
                stacked_from(g.stack, triggers_processed(g, events).stack, order, at) && forall|
                    i: int,
                    j: int,
                |
                    0 <= i < j < at.len() ==> !precedes(
                        g.active_player,
                        order[#[trigger] at[i]],
                        order[#[trigger] at[j]],
                    )
        }),
{
    let current = up_to_date(g);
    law_layers_keep_table(g);
    law_scan_keeps_table(current, events, events.len());
    let pass = scanned(current, events, events.len());
    let order = triggers_set_off(current, events);
    law_placing(pass.game, order, order.len());
    assert(order.take(order.len() as int) =~= order);
    let found = with_doubles(pass.game, pass.pending);
    law_stack_order(pass.game.active_player, found);
    let at = choose|at: Seq<int>|
        stacked_from(
            pass.game.stack,
            placed(pass.game, order, order.len()).game.stack,
            order,
            at,
        );
    assert(stacked_from(g.stack, triggers_processed(g, events).stack, order, at));
    assert forall|i: int, j: int| 0 <= i < j < at.len() implies !precedes(
        g.active_player,
        order[#[trigger] at[i]],
        order[#[trigger] at[j]],
    ) by {
        assert(order[at[i]] == stack_order(g.active_player, found)[at[i]]);
        assert(order[at[j]] == stack_order(g.active_player, found)[at[j]]);
    }
}

/// A trigger that goes on the stack leaves its events under its own identifier where there are
/// several, and none otherwise, as long as none stood there before. What stands under another
/// identifier stays.
pub proof fn law_batch_kept(g: Game, trigger: PendingTrigger, events: List<GameEvent>, id: ObjectId)
    requires
        !g.stack_trigger_event_batches.contains_key(ObjectId(g.next_object_id)),
    ensures
        at(pushed(g, trigger, events).stack_trigger_event_batches, id) == if id == ObjectId(
            g.next_object_id,
        ) {
            if events@.len() > 1 {
                Some(events)
            } else {
                None
            }
        } else {
            at(g.stack_trigger_event_batches, id)
        },
{
    reveal(pushed);
}

} // verus!
