//! Which events set off a delayed trigger, and what becomes of one that is set off and of one
//! that is not (CR 603.7).

use crate::ability::{DelayedTriggerCondition, TargetFilter, TriggerDefinition};
use crate::events::GameEvent;
use crate::filter::{object_matches, FilterContext};
use crate::ids::{ObjectId, Phase, PlayerId, Zone};
use crate::matchers::trigger_matches;
use crate::state::{DelayedTrigger, Game, StackEntry, StackEntryKind};
use crate::triggers::delayed::{
    all_pushed, delayed_event, delayed_fits, delayed_kept, delayed_order, delayed_pending,
    lasting_fired, one_shot_fired, set_off_by, without_spent,
};
use crate::triggers::laws::{law_delayed_spent, law_pushed};
use crate::triggers::order::law_stack_order;
use crate::triggers::placing::pushed;
use crate::triggers::PendingTrigger;
use std::rc::Rc;
use vstd::prelude::*;

verus! {

/// The game once delayed triggers have been checked against a batch of events.
pub open spec fn delayed_checked(g: Game, events: Seq<GameEvent>) -> Game {
    all_pushed(
        without_spent(g, events),
        delayed_order(g, events),
        delayed_order(g, events).len(),
    )
}

/// Whether an entry of the stack is the ability of a delayed trigger, set off by an event.
pub open spec fn is_delayed_ability(
    entry: StackEntry,
    delayed: DelayedTrigger,
    event: GameEvent,
) -> bool {
    &&& entry.source_id == delayed.source_id
    &&& entry.controller == delayed.controller
    &&& entry.kind matches StackEntryKind::TriggeredAbility {
        source_id,
        ability,
        condition,
        trigger_event,
        ..
    }
    &&& source_id == delayed.source_id
    &&& ability == delayed.ability
    &&& condition is None
    &&& trigger_event == Some(event)
}

proof fn lemma_delayed_event(
    g: Game,
    condition: DelayedTriggerCondition,
    events: Seq<GameEvent>,
    source_id: ObjectId,
    controller: PlayerId,
    at: nat,
)
    requires
        at <= events.len(),
    ensures
        ({
            let found = delayed_event(g, condition, events, source_id, controller, at);
            &&& found is Some <==> exists|i: int|
                at <= i < events.len() && delayed_fits(
                    g,
                    condition,
                    #[trigger] events[i],
                    source_id,
                    controller,
                )
            &&& found matches Some(e) ==> events.contains(e) && delayed_fits(
                g,
                condition,
                e,
                source_id,
                controller,
            )
        }),
    decreases events.len() - at,
{
    if at < events.len() {
        if delayed_fits(g, condition, events[at as int], source_id, controller) {
            assert(events.contains(events[at as int]));
        } else {
            lemma_delayed_event(g, condition, events, source_id, controller, at + 1);
        }
    }
}

/// A delayed trigger that waits for a phase is set off exactly when the phase begins. Where it
/// waits for the phase of a player's turn, it must be that player's turn: in the turn of another
/// player nothing sets it off.
pub proof fn law_waits_for_phase(
    g: Game,
    events: Seq<GameEvent>,
    i: int,
    phase: Phase,
    player: PlayerId,
)
    requires
        0 <= i < g.delayed_triggers.len(),
    ensures
        g.delayed_triggers[i].condition == (DelayedTriggerCondition::AtNextPhase { phase }) ==> (
        set_off_by(g, events, i) is Some <==> events.contains(GameEvent::PhaseChanged { phase })),
        g.delayed_triggers[i].condition == (DelayedTriggerCondition::AtNextPhaseForPlayer {
            phase,
            player,
        }) ==> (set_off_by(g, events, i) is Some <==> g.active_player == player && events.contains(
            GameEvent::PhaseChanged { phase },
        )),
{
    let d = g.delayed_triggers[i];
    let change = GameEvent::PhaseChanged { phase };
    lemma_delayed_event(g, d.condition, events, d.source_id, d.controller, 0);
    if events.contains(change) {
        let k = choose|k: int| 0 <= k < events.len() && events[k] == change;
        assert(events[k] == change);
    }
}

/// Whether a batch tells of an object that left one zone for another.
pub open spec fn told_of_move(
    events: Seq<GameEvent>,
    k: int,
    object_id: ObjectId,
    from: Option<Zone>,
    to: Zone,
) -> bool {
    0 <= k < events.len() && (events[k] matches GameEvent::ZoneChanged {
        object_id: moved,
        from: left,
        to: reached,
        ..
    } && moved == object_id && left == from && reached == to)
}

/// A delayed trigger that waits for an event of some description, every time or the next time, is
/// set off exactly when one of the events is such as that trigger watches for.
pub proof fn law_waits_for_event(
    g: Game,
    events: Seq<GameEvent>,
    i: int,
    trigger: Rc<TriggerDefinition>,
)
    requires
        0 <= i < g.delayed_triggers.len(),
        g.delayed_triggers[i].condition == (DelayedTriggerCondition::WheneverEvent { trigger })
            || g.delayed_triggers[i].condition == (DelayedTriggerCondition::WhenNextEvent {
            trigger,
        }),
    ensures
        set_off_by(g, events, i) is Some <==> exists|k: int|
            0 <= k < events.len() && trigger_matches(
                g,
                #[trigger] events[k],
                *trigger,
                g.delayed_triggers[i].source_id,
            ),
        set_off_by(g, events, i) is Some ==> events.contains(set_off_by(g, events, i)->0)
            && trigger_matches(
            g,
            set_off_by(g, events, i)->0,
            *trigger,
            g.delayed_triggers[i].source_id,
        ),
{
    let d = g.delayed_triggers[i];
    lemma_delayed_event(g, d.condition, events, d.source_id, d.controller, 0);
    if set_off_by(g, events, i) is Some {
        let k = choose|k: int|
            0 <= k < events.len() && delayed_fits(
                g,
                d.condition,
                #[trigger] events[k],
                d.source_id,
                d.controller,
            );
        assert(delayed_fits(g, d.condition, events[k], d.source_id, d.controller));
    }
    if exists|k: int|
        0 <= k < events.len() && trigger_matches(g, #[trigger] events[k], *trigger, d.source_id) {
        let k = choose|k: int|
            0 <= k < events.len() && trigger_matches(
                g,
                #[trigger] events[k],
                *trigger,
                d.source_id,
            );
        assert(delayed_fits(g, d.condition, events[k], d.source_id, d.controller));
    }
}

/// A delayed trigger that waits for an object to leave the battlefield is set off exactly when it
/// does, wherever it goes.
pub proof fn law_waits_for_leaving(g: Game, events: Seq<GameEvent>, i: int, object_id: ObjectId)
    requires
        0 <= i < g.delayed_triggers.len(),
        g.delayed_triggers[i].condition == (DelayedTriggerCondition::WhenLeavesPlay { object_id }),
    ensures
        set_off_by(g, events, i) is Some <==> exists|k: int, to: Zone| #[trigger]
            told_of_move(events, k, object_id, Some(Zone::Battlefield), to),
{
    let d = g.delayed_triggers[i];
    lemma_delayed_event(g, d.condition, events, d.source_id, d.controller, 0);
    if set_off_by(g, events, i) is Some {
        let k = choose|k: int|
            0 <= k < events.len() && delayed_fits(
                g,
                d.condition,
                #[trigger] events[k],
                d.source_id,
                d.controller,
            );
        assert(told_of_move(events, k, object_id, Some(Zone::Battlefield), events[k]->to));
    }
    if exists|k: int, to: Zone| #[trigger]
        told_of_move(events, k, object_id, Some(Zone::Battlefield), to) {
        let (k, to) = choose|k: int, to: Zone| #[trigger]
            told_of_move(events, k, object_id, Some(Zone::Battlefield), to);
        assert(delayed_fits(g, d.condition, events[k], d.source_id, d.controller));
    }
}

/// A delayed trigger that waits for an object of some description to die, to leave the
/// battlefield, to enter it, or to die or be exiled is set off exactly when an object that its
/// filter lets through changes zones that way.
pub proof fn law_waits_for_move(
    g: Game,
    events: Seq<GameEvent>,
    i: int,
    filter: TargetFilter,
    ctx: FilterContext,
)
    requires
        0 <= i < g.delayed_triggers.len(),
        ctx.source_id == g.delayed_triggers[i].source_id,
        ctx.controller == Some(g.delayed_triggers[i].controller),
        ctx.trigger_object is None,
    ensures
        g.delayed_triggers[i].condition == (DelayedTriggerCondition::WhenDies { filter }) ==> (
        set_off_by(g, events, i) is Some <==> exists|k: int, id: ObjectId| #[trigger]
            told_of_move(events, k, id, Some(Zone::Battlefield), Zone::Graveyard)
                && object_matches(g, id, filter, ctx)),
        g.delayed_triggers[i].condition == (DelayedTriggerCondition::WhenLeavesPlayFiltered {
            filter,
        }) ==> (set_off_by(g, events, i) is Some <==> exists|k: int, id: ObjectId, to: Zone|
            #[trigger] told_of_move(events, k, id, Some(Zone::Battlefield), to) && object_matches(
                g,
                id,
                filter,
                ctx,
            )),
        g.delayed_triggers[i].condition == (DelayedTriggerCondition::WhenEntersBattlefield {
            filter,
        }) ==> (set_off_by(g, events, i) is Some <==> exists|
            k: int,
            id: ObjectId,
            from: Option<Zone>,
        | #[trigger]
            told_of_move(events, k, id, from, Zone::Battlefield) && object_matches(
                g,
                id,
                filter,
                ctx,
            )),
        g.delayed_triggers[i].condition == (DelayedTriggerCondition::WhenDiesOrExiled { filter })
            ==> (set_off_by(g, events, i) is Some <==> exists|k: int, id: ObjectId, to: Zone|
            #[trigger] told_of_move(events, k, id, Some(Zone::Battlefield), to) && (to
                == Zone::Graveyard || to == Zone::Exile) && object_matches(g, id, filter, ctx)),
{
    let d = g.delayed_triggers[i];
    lemma_delayed_event(g, d.condition, events, d.source_id, d.controller, 0);
    assert forall|k: int, id: ObjectId, from: Option<Zone>, to: Zone|
        #[trigger] told_of_move(events, k, id, from, to) implies events[k] is ZoneChanged by {
        assert(events[k] == events[k]);
    }
    if set_off_by(g, events, i) is Some {
        let k = choose|k: int|
            0 <= k < events.len() && delayed_fits(
                g,
                d.condition,
                #[trigger] events[k],
                d.source_id,
                d.controller,
            );
        if events[k] is ZoneChanged {
            assert(told_of_move(
                events,
                k,
                events[k]->ZoneChanged_object_id,
                events[k]->from,
                events[k]->to,
            ));
        }
    }
}

/// Whether a trigger is the one that some of the first `n` delayed triggers becomes.
spec fn fired_before(
    g: Game,
    events: Seq<GameEvent>,
    n: nat,
    one_shot: bool,
    t: PendingTrigger,
) -> bool {
    exists|i: int|
        0 <= i < n && #[trigger] fired_at(g, events, i, t) && g.delayed_triggers[i].one_shot
            == one_shot
}

proof fn lemma_lasting(g: Game, events: Seq<GameEvent>, n: nat)
    requires
        n <= g.delayed_triggers.len(),
    ensures
        forall|k: int|
            0 <= k < lasting_fired(g, events, n).len() ==> fired_before(
                g,
                events,
                n,
                false,
                #[trigger] lasting_fired(g, events, n)[k],
            ),
        forall|i: int|
            0 <= i < n && !(#[trigger] g.delayed_triggers[i]).one_shot && set_off_by(g, events, i)
                is Some ==> lasting_fired(g, events, n).contains(
                delayed_pending(g, g.delayed_triggers[i], set_off_by(g, events, i)->0),
            ),
    decreases n,
{
    if n > 0 {
        lemma_lasting(g, events, (n - 1) as nat);
        let before = lasting_fired(g, events, (n - 1) as nat);
        let now = lasting_fired(g, events, n);
        let more = set_off_by(g, events, n - 1) is Some && !g.delayed_triggers[n - 1].one_shot;
        assert forall|k: int| 0 <= k < now.len() implies fired_before(
            g,
            events,
            n,
            false,
            #[trigger] now[k],
        ) by {
            if k < before.len() {
                assert(now[k] == before[k]);
                let i = choose|i: int|
                    0 <= i < n - 1 && #[trigger] fired_at(g, events, i, before[k])
                        && g.delayed_triggers[i].one_shot == false;
                assert(fired_at(g, events, i, now[k]));
            } else {
                assert(fired_at(g, events, n - 1, now[k]));
            }
        }
        assert forall|i: int|
            0 <= i < n && !(#[trigger] g.delayed_triggers[i]).one_shot && set_off_by(g, events, i)
                is Some implies now.contains(
            delayed_pending(g, g.delayed_triggers[i], set_off_by(g, events, i)->0),
        ) by {
            let t = delayed_pending(g, g.delayed_triggers[i], set_off_by(g, events, i)->0);
            if i < n - 1 {
                let k = choose|k: int| 0 <= k < before.len() && before[k] == t;
                assert(now[k] == t);
            } else {
                assert(now[before.len() as int] == t);
            }
        }
    }
}

/// Whether a trigger is the one that the delayed trigger at an index becomes.
spec fn fired_at(g: Game, events: Seq<GameEvent>, i: int, t: PendingTrigger) -> bool {
    set_off_by(g, events, i) matches Some(e) && t == delayed_pending(g, g.delayed_triggers[i], e)
}

proof fn lemma_one_shot(g: Game, events: Seq<GameEvent>, n: nat)
    requires
        n <= g.delayed_triggers.len(),
    ensures
        forall|k: int|
            0 <= k < one_shot_fired(g, events, n).len() ==> fired_before(
                g,
                events,
                n,
                true,
                #[trigger] one_shot_fired(g, events, n)[k],
            ),
        forall|i: int|
            0 <= i < n && (#[trigger] g.delayed_triggers[i]).one_shot && set_off_by(g, events, i)
                is Some ==> one_shot_fired(g, events, n).contains(
                delayed_pending(g, g.delayed_triggers[i], set_off_by(g, events, i)->0),
            ),
    decreases n,
{
    if n > 0 {
        lemma_one_shot(g, events, (n - 1) as nat);
        let before = one_shot_fired(g, events, (n - 1) as nat);
        let now = one_shot_fired(g, events, n);
        let more: int = now.len() - before.len();
        assert forall|k: int| 0 <= k < now.len() implies fired_before(
            g,
            events,
            n,
            true,
            #[trigger] now[k],
        ) by {
            if k >= more {
                assert(now[k] == before[k - more]);
                let i = choose|i: int|
                    0 <= i < n - 1 && #[trigger] fired_at(g, events, i, before[k - more])
                        && g.delayed_triggers[i].one_shot == true;
                assert(fired_at(g, events, i, now[k]));
            } else {
                assert(fired_at(g, events, n - 1, now[k]));
            }
        }
        assert forall|i: int|
            0 <= i < n && (#[trigger] g.delayed_triggers[i]).one_shot && set_off_by(g, events, i)
                is Some implies now.contains(
            delayed_pending(g, g.delayed_triggers[i], set_off_by(g, events, i)->0),
        ) by {
            let t = delayed_pending(g, g.delayed_triggers[i], set_off_by(g, events, i)->0);
            if i < n - 1 {
                let k = choose|k: int| 0 <= k < before.len() && before[k] == t;
                assert(now[k + more] == t);
            } else {
                assert(now[0] == t);
            }
        }
    }
}

/// Whether an entry of the stack is a triggered ability of the given source.
spec fn triggered_by(entry: StackEntry, id: ObjectId) -> bool {
    entry.kind matches StackEntryKind::TriggeredAbility { source_id, .. } && source_id == id
}

proof fn lemma_pushes_keep(g: Game, order: Seq<PendingTrigger>, n: nat)
    requires
        n <= order.len(),
    ensures
        all_pushed(g, order, n).delayed_triggers == g.delayed_triggers,
        forall|j: int|
            g.stack.len() <= j < g.stack.len() + n ==> triggered_by(
                #[trigger] all_pushed(g, order, n).stack[j],
                order[j - g.stack.len()].source_id,
            ),
    decreases n,
{
    if n > 0 {
        lemma_pushes_keep(g, order, (n - 1) as nat);
        law_pushed(g, order, (n - 1) as nat);
        reveal(pushed);
        let before = all_pushed(g, order, (n - 1) as nat).stack;
        let after = all_pushed(g, order, n).stack;
        assert forall|j: int| g.stack.len() <= j < g.stack.len() + n implies triggered_by(
            #[trigger] after[j],
            order[j - g.stack.len()].source_id,
        ) by {
            if j < before.len() {
                assert(after[j] == before[j]);
            }
        }
    }
}

/// Whether an entry of the stack is the ability of the delayed trigger at an index, which the
/// events set off.
pub open spec fn from_delayed(g: Game, events: Seq<GameEvent>, i: int, entry: StackEntry) -> bool {
    &&& 0 <= i < g.delayed_triggers.len()
    &&& set_off_by(g, events, i) matches Some(e) && is_delayed_ability(
        entry,
        g.delayed_triggers[i],
        e,
    )
}

proof fn lemma_stacked_from_set_off(g: Game, events: Seq<GameEvent>, k: int) -> (i: int)
    requires
        g.stack.len() <= k < delayed_checked(g, events).stack.len(),
    ensures
        from_delayed(g, events, i, delayed_checked(g, events).stack[k]),
{
    broadcast use vstd::seq_lib::group_to_multiset_ensures;

    let n = g.delayed_triggers.len();
    let lasting = lasting_fired(g, events, n);
    let once = one_shot_fired(g, events, n);
    let found = lasting + once;
    let order = delayed_order(g, events);
    let start = without_spent(g, events);
    law_pushed(start, order, order.len());
    lemma_pushes_keep(start, order, order.len());
    assert(order.take(order.len() as int) =~= order);
    law_stack_order(g.active_player, found);
    let t = order[k - g.stack.len()];
    assert(order.contains(t));
    assert(order.to_multiset().count(t) > 0);
    assert(found.to_multiset().count(t) > 0);
    let m = choose|m: int| 0 <= m < found.len() && found[m] == t;
    if m < lasting.len() {
        lemma_lasting(g, events, n);
        assert(lasting[m] == t);
        choose|i: int|
            0 <= i < n && #[trigger] fired_at(g, events, i, t) && g.delayed_triggers[i].one_shot
                == false
    } else {
        lemma_one_shot(g, events, n);
        assert(once[m - lasting.len()] == t);
        choose|i: int|
            0 <= i < n && #[trigger] fired_at(g, events, i, t) && g.delayed_triggers[i].one_shot
                == true
    }
}

proof fn lemma_set_off_is_stacked(g: Game, events: Seq<GameEvent>, i: int) -> (k: int)
    requires
        0 <= i < g.delayed_triggers.len(),
        set_off_by(g, events, i) is Some,
    ensures
        g.stack.len() <= k < delayed_checked(g, events).stack.len(),
        from_delayed(g, events, i, delayed_checked(g, events).stack[k]),
{
    broadcast use vstd::seq_lib::group_to_multiset_ensures;

    let n = g.delayed_triggers.len();
    let lasting = lasting_fired(g, events, n);
    let once = one_shot_fired(g, events, n);
    let found = lasting + once;
    let order = delayed_order(g, events);
    let start = without_spent(g, events);
    law_pushed(start, order, order.len());
    lemma_pushes_keep(start, order, order.len());
    assert(order.take(order.len() as int) =~= order);
    law_stack_order(g.active_player, found);
    let t = delayed_pending(g, g.delayed_triggers[i], set_off_by(g, events, i)->0);
    if g.delayed_triggers[i].one_shot {
        lemma_one_shot(g, events, n);
        let m = choose|m: int| 0 <= m < once.len() && once[m] == t;
        assert(found[lasting.len() + m] == t);
    } else {
        lemma_lasting(g, events, n);
        let m = choose|m: int| 0 <= m < lasting.len() && lasting[m] == t;
        assert(found[m] == t);
    }
    assert(found.contains(t));
    assert(found.to_multiset().count(t) > 0);
    assert(order.to_multiset().count(t) > 0);
    let at = choose|at: int| 0 <= at < order.len() && order[at] == t;
    g.stack.len() + at
}

/// Checking delayed triggers leaves what is on the stack, and puts on top of it the abilities of
/// those that the events set off, each with the event that set it off, and no other: what is put
/// there comes from a trigger that was set off, and each that was set off is there.
pub proof fn law_delayed_stacked(g: Game, events: Seq<GameEvent>, k: int)
    ensures
        g.stack.is_prefix_of(delayed_checked(g, events).stack),
        g.stack.len() <= k < delayed_checked(g, events).stack.len() ==> exists|i: int|
            #[trigger] from_delayed(g, events, i, delayed_checked(g, events).stack[k]),
        forall|i: int|
            0 <= i < g.delayed_triggers.len() && #[trigger] set_off_by(g, events, i) is Some
                ==> exists|k: int|
                g.stack.len() <= k < delayed_checked(g, events).stack.len() && from_delayed(
                    g,
                    events,
                    i,
                    #[trigger] delayed_checked(g, events).stack[k],
                ),
{
    let order = delayed_order(g, events);
    let start = without_spent(g, events);
    law_pushed(start, order, order.len());
    let after = delayed_checked(g, events).stack;
    assert(g.stack =~= after.subrange(0, g.stack.len() as int));
    if g.stack.len() <= k < after.len() {
        let i = lemma_stacked_from_set_off(g, events, k);
        assert(from_delayed(g, events, i, delayed_checked(g, events).stack[k]));
    }
    assert forall|i: int|
        0 <= i < g.delayed_triggers.len() && #[trigger] set_off_by(g, events, i)
            is Some implies exists|k: int|
        g.stack.len() <= k < delayed_checked(g, events).stack.len() && from_delayed(
            g,
            events,
            i,
            #[trigger] delayed_checked(g, events).stack[k],
        ) by {
        let k = lemma_set_off_is_stacked(g, events, i);
        assert(from_delayed(g, events, i, delayed_checked(g, events).stack[k]));
    }
}

/// A delayed trigger that waits for a phase of a player's turn is kept through the turn of any
/// other player, whatever happens in it, and each ability that then goes on the stack is that of
/// another delayed trigger.
pub proof fn law_waits_for_its_turn(
    g: Game,
    events: Seq<GameEvent>,
    i: int,
    phase: Phase,
    player: PlayerId,
    k: int,
)
    requires
        0 <= i < g.delayed_triggers.len(),
        g.delayed_triggers[i].condition == (DelayedTriggerCondition::AtNextPhaseForPlayer {
            phase,
            player,
        }),
        g.active_player != player,
    ensures
        delayed_checked(g, events).delayed_triggers.contains(g.delayed_triggers[i]),
        g.stack.len() <= k < delayed_checked(g, events).stack.len() ==> exists|j: int|
            j != i && #[trigger] from_delayed(g, events, j, delayed_checked(g, events).stack[k]),
{
    let n = g.delayed_triggers.len();
    law_waits_for_phase(g, events, i, phase, player);
    law_delayed_spent(g, events, n);
    let order = delayed_order(g, events);
    lemma_pushes_keep(without_spent(g, events), order, order.len());
    if g.stack.len() <= k < delayed_checked(g, events).stack.len() {
        let j = lemma_stacked_from_set_off(g, events, k);
        assert(from_delayed(g, events, j, delayed_checked(g, events).stack[k]));
    }
}

/// A delayed trigger stays unless it goes off once and for all, and what stays was there: those
/// that stay are as many as are left once the spent ones are taken out.
pub proof fn law_delayed_stays(g: Game, events: Seq<GameEvent>)
    ensures
        forall|i: int|
            0 <= i < g.delayed_triggers.len() && !(g.delayed_triggers[i].one_shot && set_off_by(
                g,
                events,
                i,
            ) is Some) ==> delayed_checked(g, events).delayed_triggers.contains(
                #[trigger] g.delayed_triggers[i],
            ),
        forall|k: int|
            0 <= k < delayed_checked(g, events).delayed_triggers.len() ==> exists|i: int|
                0 <= i < g.delayed_triggers.len() && #[trigger] g.delayed_triggers[i] == (
                #[trigger] delayed_checked(g, events).delayed_triggers[k]) && !(
                g.delayed_triggers[i].one_shot && set_off_by(g, events, i) is Some),
{
    let n = g.delayed_triggers.len();
    law_delayed_spent(g, events, n);
    let order = delayed_order(g, events);
    lemma_pushes_keep(without_spent(g, events), order, order.len());
    assert(delayed_checked(g, events).delayed_triggers == delayed_kept(g, events, n));
}

/// How many of the first `n` delayed triggers the events set off.
pub open spec fn number_set_off(g: Game, events: Seq<GameEvent>, n: nat) -> nat
    decreases n,
{
    if n == 0 {
        0
    } else {
        number_set_off(g, events, (n - 1) as nat) + (if set_off_by(g, events, n - 1) is Some {
            1nat
        } else {
            0nat
        })
    }
}

proof fn lemma_number_fired(g: Game, events: Seq<GameEvent>, n: nat)
    ensures
        lasting_fired(g, events, n).len() + one_shot_fired(g, events, n).len() == number_set_off(
            g,
            events,
            n,
        ),
    decreases n,
{
    if n > 0 {
        lemma_number_fired(g, events, (n - 1) as nat);
    }
}

/// Each delayed trigger that the events set off goes on the stack once: there is one more entry
/// for each.
pub proof fn law_delayed_once(g: Game, events: Seq<GameEvent>)
    ensures
        delayed_checked(g, events).stack.len() == g.stack.len() + number_set_off(
            g,
            events,
            g.delayed_triggers.len(),
        ),
{
    let n = g.delayed_triggers.len();
    let fired = lasting_fired(g, events, n) + one_shot_fired(g, events, n);
    let order = delayed_order(g, events);
    law_stack_order(g.active_player, fired);
    law_pushed(without_spent(g, events), order, order.len());
    assert(order.take(order.len() as int) =~= order);
    lemma_number_fired(g, events, n);
}

} // verus!
