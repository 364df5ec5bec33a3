//! How the processing of events ends, and which events belong together.

use crate::events::{events_agree, GameEvent};
use crate::ids::ObjectId;
use crate::list::lemma_items_of;
use crate::state::Game;
use crate::triggers::delayed::{all_pushed, push_events};
use crate::triggers::order::stack_order;
use crate::triggers::placing::{batch_for, placed, pushed, trigger_pushed, with_doubles};
use crate::triggers::scan::scanned;
use crate::triggers::{triggers_processed, triggers_set_off, up_to_date, PendingTrigger};
use vstd::prelude::*;

verus! {

/// Processing events looks for the triggers in the game as its continuous effects make it, doubles
/// what is doubled, orders what is found and places it (CR 603.3).
pub proof fn law_processed(g: Game, events: Seq<GameEvent>)
    ensures
        ({
            let found = scanned(up_to_date(g), events, events.len());
            let order = stack_order(
                found.game.active_player,
                with_doubles(found.game, found.pending),
            );
            let end = placed(found.game, order, order.len());
            let r = triggers_processed(g, events);
            &&& triggers_set_off(up_to_date(g), events) == order
            &&& r.stack == end.game.stack
            &&& r.waiting_for == end.game.waiting_for
            &&& r.pending_trigger == end.game.pending_trigger
            &&& r.players == end.game.players
            &&& r.battlefield == end.game.battlefield
            &&& order.len() == 0 ==> r == found.game
        }),
{
}

/// Once triggers have been placed, what was remembered of how spells were cast is forgotten; as
/// long as one waits for a decision, or where there was none, it is kept. Nothing else of any
/// object changes.
pub proof fn law_cast_facts(g: Game, events: Seq<GameEvent>, id: ObjectId)
    ensures
        ({
            let found = scanned(up_to_date(g), events, events.len()).game;
            let order = triggers_set_off(up_to_date(g), events);
            let end = placed(found, order, order.len());
            let r = triggers_processed(g, events);
            let before = end.game.objects[id];
            let after = r.objects[id];
            &&& r.objects.contains_key(id) <==> end.game.objects.contains_key(id)
            &&& order.len() == 0 || end.stopped ==> r.objects == end.game.objects
            &&& order.len() > 0 && !end.stopped && r.objects.contains_key(id) ==> {
                &&& after.cast_from_zone is None
                &&& !after.mana_spent_to_cast
                &&& after.colors_spent_to_cast.white == 0 && after.colors_spent_to_cast.blue == 0
                &&& after.colors_spent_to_cast.black == 0 && after.colors_spent_to_cast.red == 0
                &&& after.colors_spent_to_cast.green == 0
                &&& after.zone == before.zone && after.controller == before.controller
                &&& after.power == before.power && after.keywords == before.keywords
                &&& after.counters == before.counters && after.kickers_paid == before.kickers_paid
            }
        }),
{
}

/// Events agree with themselves, and only with events of the same kind about the same objects.
pub proof fn law_events_agree(a: GameEvent, b: GameEvent)
    ensures
        events_agree(a, b) && a is ZoneChanged ==> b is ZoneChanged && a->ZoneChanged_object_id
            == b->ZoneChanged_object_id && a->ZoneChanged_from == b->ZoneChanged_from
            && a->ZoneChanged_to == b->ZoneChanged_to,
        events_agree(a, b) && a is TokenCreated ==> b is TokenCreated
            && a->TokenCreated_object_id == b->TokenCreated_object_id,
        events_agree(a, b) && a is RoomEntered ==> b is RoomEntered && a->RoomEntered_player_id
            == b->RoomEntered_player_id && a->RoomEntered_dungeon == b->RoomEntered_dungeon
            && a->room_index == b->room_index,
        events_agree(a, b) && !(a is ZoneChanged) && !(a is TokenCreated) && !(a is RoomEntered)
            ==> a == b,
        a == b && !(a is ZoneChanged) ==> events_agree(a, b),
{
}

/// A trigger goes on the stack with the batch that was set aside for it, where that begins with
/// the event that set it off; else with that event alone. The batch is then no longer set aside.
pub proof fn law_batch_taken(g: Game, trigger: PendingTrigger)
    ensures
        ({
            let aside = g.pending_trigger_event_batch@;
            let r = trigger_pushed(g, trigger);
            let belongs = aside.len() > 0 && trigger.trigger_event is Some && events_agree(
                aside[0],
                trigger.trigger_event->0,
            );
            &&& belongs ==> batch_for(g, trigger) == g.pending_trigger_event_batch
            &&& !belongs && trigger.trigger_event is Some ==> batch_for(g, trigger)@ == seq![
                trigger.trigger_event->0,
            ]
            &&& !belongs && trigger.trigger_event is None ==> batch_for(g, trigger)@.len() == 0
            &&& r.pending_trigger_event_batch@.len() == 0
            &&& r.stack.len() == g.stack.len() + 1
        }),
{
    reveal(pushed);
    lemma_items_of(Seq::<GameEvent>::empty());
    if trigger.trigger_event is Some {
        lemma_items_of(seq![trigger.trigger_event->0]);
    }
    if g.pending_trigger_event_batch.node is Some {
        assert(g.pending_trigger_event_batch@[0] == *g.pending_trigger_event_batch.node->0.item);
    }
}

/// Each trigger that is put on the stack is told of once, in order, by the number that its entry
/// has there.
pub proof fn law_push_told(g: Game, order: Seq<PendingTrigger>, n: nat, k: int)
    requires
        n <= order.len(),
        0 <= k < n,
    ensures
        push_events(g, order, n).len() == n,
        all_pushed(g, order, n).stack.len() == g.stack.len() + n,
        push_events(g, order, n)[k] == (GameEvent::StackPushed {
            object_id: all_pushed(g, order, n).stack[g.stack.len() + k].id,
        }),
    decreases n,
{
    reveal(pushed);
    lemma_push_counted(g, order, (n - 1) as nat);
    if k < n - 1 {
        law_push_told(g, order, (n - 1) as nat, k);
    }
}

proof fn lemma_push_counted(g: Game, order: Seq<PendingTrigger>, n: nat)
    requires
        n <= order.len(),
    ensures
        push_events(g, order, n).len() == n,
        all_pushed(g, order, n).stack.len() == g.stack.len() + n,
    decreases n,
{
    reveal(pushed);
    if n > 0 {
        lemma_push_counted(g, order, (n - 1) as nat);
    }
}

} // verus!
