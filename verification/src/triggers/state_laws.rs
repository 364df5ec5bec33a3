//! State triggers: when they fire, and that what they put on the stack is theirs (CR 603.8).

use crate::ability::{TriggerDefinition, TriggerMode};
use crate::functioning::active_triggers;
use crate::ids::{ObjectId, TargetRef, Zone};
use crate::list::{lemma_items_of, list_rest, List};
use crate::object::GameObject;
use crate::state::Game;
use crate::triggers::collect::next_index;
use crate::triggers::conditions::condition_holds;
use crate::triggers::delayed::{
    is_state_ability, state_condition_holds, state_trigger, state_trigger_fires, state_triggers,
    state_triggers_checked, state_triggers_of, waits_on_stack,
};
use crate::triggers::laws::law_pushed;
use crate::triggers::order::{law_stack_order, stack_order};
use crate::triggers::PendingTrigger;
use vstd::prelude::*;

verus! {

/// A state trigger is one that has a condition for its mode, and fires only while that condition
/// holds for its permanent and the permanent's controller.
pub proof fn law_state_condition(g: Game, id: ObjectId, o: GameObject, def: TriggerDefinition)
    ensures
        state_condition_holds(g, id, o, def) <==> def.mode == TriggerMode::StateCondition
            && def.condition is Some && condition_holds(
            g,
            *def.condition->0,
            o.controller,
            Some(id),
            None,
        ),
{
}

/// What waits on the stack is an ability of the permanent that no event set off and that stands at
/// the trigger's place.
pub proof fn law_waiting(g: Game, id: ObjectId, idx: usize)
    ensures
        waits_on_stack(g, id, idx) <==> exists|i: int|
            0 <= i < g.stack.len() && (#[trigger] g.stack[i]).source_id == id
                && g.stack[i].kind is TriggeredAbility && g.stack[i].kind->trigger_event is None
                && g.stack[i].kind->TriggeredAbility_ability.ability_index == Some(idx),
{
    if exists|i: int|
        0 <= i < g.stack.len() && (#[trigger] g.stack[i]).source_id == id
            && g.stack[i].kind is TriggeredAbility && g.stack[i].kind->trigger_event is None
            && g.stack[i].kind->TriggeredAbility_ability.ability_index == Some(idx) {
        let i = choose|i: int|
            0 <= i < g.stack.len() && (#[trigger] g.stack[i]).source_id == id
                && g.stack[i].kind is TriggeredAbility && g.stack[i].kind->trigger_event is None
                && g.stack[i].kind->TriggeredAbility_ability.ability_index == Some(idx);
        assert(is_state_ability(g.stack[i], id, idx));
    }
}

/// A state trigger that fires does what it prints, for the permanent and its controller, and
/// carries its condition, to be asked again as it resolves, and its place.
pub proof fn law_state_ability(id: ObjectId, o: GameObject, def: TriggerDefinition, idx: usize)
    ensures
        ({
            let t = state_trigger(id, o, def, idx);
            &&& t.source_id == id && t.controller == o.controller
            &&& t.condition == def.condition
            &&& t.trigger_event is None && t.modal is None
            &&& t.ability.source_id == id && t.ability.controller == o.controller
            &&& t.ability.ability_index == Some(idx)
            &&& t.ability.targets@.len() == 0
            &&& def.execute is Some ==> t.ability.effect == def.execute->0.effect
                && t.ability.optional == def.execute->0.optional && t.ability.duration
                == def.execute->0.duration && t.distribute == def.execute->0.distribute
            &&& def.execute is None ==> *t.ability.effect is Unimplemented && t.distribute is None
        }),
{
    lemma_items_of(Seq::<TargetRef>::empty());
}

/// Whether a trigger is that of a permanent's state trigger at some place, which fires.
pub open spec fn fired(g: Game, t: PendingTrigger, k: int, i: int) -> bool {
    &&& 0 <= k < g.battlefield.len()
    &&& g.objects.contains_key(g.battlefield[k])
    &&& g.objects[g.battlefield[k]].zone == Zone::Battlefield
    &&& 0 <= i < active_triggers(g.objects[g.battlefield[k]])@.len()
    &&& state_condition_holds(
        g,
        g.battlefield[k],
        g.objects[g.battlefield[k]],
        active_triggers(g.objects[g.battlefield[k]])@[i],
    )
    &&& i <= usize::MAX ==> !waits_on_stack(g, g.battlefield[k], i as usize)
    &&& i <= usize::MAX ==> t == state_trigger(
        g.battlefield[k],
        g.objects[g.battlefield[k]],
        active_triggers(g.objects[g.battlefield[k]])@[i],
        i as usize,
    )
}

proof fn lemma_of_one(
    g: Game,
    id: ObjectId,
    o: GameObject,
    defs: List<TriggerDefinition>,
    from: usize,
    j: int,
) -> (i: int)
    requires
        0 <= j < state_triggers_of(g, id, o, defs, from).len(),
        from + defs@.len() <= usize::MAX,
    ensures
        0 <= i < defs@.len(),
        state_trigger_fires(g, id, o, defs@[i], (from + i) as usize),
        state_triggers_of(g, id, o, defs, from)[j] == state_trigger(
            id,
            o,
            defs@[i],
            (from + i) as usize,
        ),
    decreases defs,
{
    let rest = list_rest(defs);
    let all = state_triggers_of(g, id, o, defs, from);
    let next = next_index(from);
    let there = state_triggers_of(g, id, o, rest, next);
    assert(defs@[0] == *defs.node->0.item);
    assert(defs@.len() == rest@.len() + 1);
    assert forall|m: int| 0 < m < defs@.len() implies #[trigger] defs@[m] == rest@[m - 1] by {}
    if state_trigger_fires(g, id, o, defs@[0], from) {
        assert(all == seq![state_trigger(id, o, defs@[0], from)] + there);
        if j == 0 {
            0
        } else {
            assert(all[j] == there[j - 1]);
            let i = lemma_of_one(g, id, o, rest, next, j - 1);
            assert(defs@[i + 1] == rest@[i]);
            i + 1
        }
    } else {
        assert(all == there);
        let i = lemma_of_one(g, id, o, rest, next, j);
        assert(defs@[i + 1] == rest@[i]);
        i + 1
    }
}

proof fn lemma_of_some(g: Game, n: nat, j: int) -> (at: (int, int))
    requires
        n <= g.battlefield.len(),
        0 <= j < state_triggers(g, n).len(),
        forall|id: ObjectId|
            g.objects.contains_key(id) ==> active_triggers(#[trigger] g.objects[id])@.len()
                <= usize::MAX,
    ensures
        fired(g, state_triggers(g, n)[j], at.0, at.1),
    decreases n,
{
    let before = state_triggers(g, (n - 1) as nat);
    let all = state_triggers(g, n);
    if j < before.len() {
        assert(all[j] == before[j]);
        lemma_of_some(g, (n - 1) as nat, j)
    } else {
        let id = g.battlefield[n - 1];
        let o = g.objects[id];
        let own = state_triggers_of(g, id, o, active_triggers(o), 0);
        assert(all == before + own);
        assert(all[j] == own[j - before.len()]);
        assert(active_triggers(g.objects[id])@.len() <= usize::MAX);
        let i = lemma_of_one(g, id, o, active_triggers(o), 0, j - before.len());
        (n - 1, i)
    }
}

/// Checking state triggers puts nothing on the stack but the abilities of state triggers that
/// fire, each under its permanent's controller, with the effect that it prints.
pub proof fn law_state_triggers_only(g: Game, j: int)
    requires
        g.stack.len() <= j < state_triggers_checked(g).stack.len(),
        forall|id: ObjectId|
            g.objects.contains_key(id) ==> active_triggers(#[trigger] g.objects[id])@.len()
                <= usize::MAX,
    ensures
        exists|t: PendingTrigger, k: int, i: int| #[trigger]
            fired(g, t, k, i) && state_triggers_checked(g).stack[j].source_id == t.source_id
                && state_triggers_checked(g).stack[j].controller == t.controller
                && state_triggers_checked(g).stack[j].kind is TriggeredAbility
                && state_triggers_checked(g).stack[j].kind->TriggeredAbility_ability == t.ability,
{
    broadcast use vstd::seq_lib::group_to_multiset_ensures;

    let n = g.battlefield.len();
    let found = state_triggers(g, n);
    let order = stack_order(g.active_player, found);
    law_pushed(g, order, order.len());
    assert(order.take(order.len() as int) =~= order);
    law_stack_order(g.active_player, found);
    let t = order[j - g.stack.len()];
    assert(order.contains(t));
    assert(order.to_multiset().count(t) > 0);
    assert(found.to_multiset().count(t) > 0);
    let m = choose|m: int| 0 <= m < found.len() && found[m] == t;
    let (k, i) = lemma_of_some(g, n, m);
    assert(fired(g, t, k, i));
}

/// How many of a permanent's triggers, which stand from a place on, are state triggers that fire.
pub open spec fn number_firing(
    g: Game,
    id: ObjectId,
    o: GameObject,
    defs: Seq<TriggerDefinition>,
    from: usize,
) -> nat
    decreases defs.len(),
{
    if defs.len() == 0 {
        0
    } else {
        number_firing(g, id, o, defs.drop_last(), from) + (if state_condition_holds(
            g,
            id,
            o,
            defs.last(),
        ) && !waits_on_stack(g, id, (from + defs.len() - 1) as usize) {
            1nat
        } else {
            0nat
        })
    }
}

proof fn lemma_number_firing(
    g: Game,
    id: ObjectId,
    o: GameObject,
    first: TriggerDefinition,
    rest: Seq<TriggerDefinition>,
    from: usize,
)
    requires
        from + rest.len() < usize::MAX,
    ensures
        number_firing(g, id, o, seq![first] + rest, from) == number_firing(
            g,
            id,
            o,
            rest,
            (from + 1) as usize,
        ) + (if state_condition_holds(g, id, o, first) && !waits_on_stack(g, id, from) {
            1nat
        } else {
            0nat
        }),
    decreases rest.len(),
{
    let all = seq![first] + rest;
    if rest.len() == 0 {
        assert(all.drop_last() =~= Seq::<TriggerDefinition>::empty());
        assert(all.last() == first);
        reveal_with_fuel(number_firing, 2);
    } else {
        lemma_number_firing(g, id, o, first, rest.drop_last(), from);
        assert(all.drop_last() =~= seq![first] + rest.drop_last());
        assert(all.last() == rest.last());
    }
}

/// A permanent's state triggers that fire are each found once.
pub proof fn law_state_triggers_once(
    g: Game,
    id: ObjectId,
    o: GameObject,
    defs: List<TriggerDefinition>,
    from: usize,
)
    requires
        from + defs@.len() < usize::MAX,
    ensures
        state_triggers_of(g, id, o, defs, from).len() == number_firing(g, id, o, defs@, from),
    decreases defs,
{
    if defs.node is Some {
        let rest = list_rest(defs);
        let first = *defs.node->0.item;
        assert(defs@ =~= seq![first] + rest@);
        law_state_triggers_once(g, id, o, rest, (from + 1) as usize);
        lemma_number_firing(g, id, o, first, rest@, from);
    } else {
        assert(defs@.len() == 0);
    }
}

/// The stack grows by one entry for each state trigger that fires, permanent by permanent.
pub proof fn law_state_triggers_stacked(g: Game, n: nat)
    requires
        n < g.battlefield.len(),
    ensures
        state_triggers_checked(g).stack.len() == g.stack.len() + state_triggers(
            g,
            g.battlefield.len(),
        ).len(),
        ({
            let id = g.battlefield[n as int];
            let o = g.objects[id];
            state_triggers(g, n + 1).len() == state_triggers(g, n).len() + (
            if g.objects.contains_key(id) && o.zone == Zone::Battlefield {
                state_triggers_of(g, id, o, active_triggers(o), 0).len()
            } else {
                0
            })
        }),
        state_triggers(g, 0).len() == 0,
{
    let found = state_triggers(g, g.battlefield.len());
    let order = stack_order(g.active_player, found);
    law_pushed(g, order, order.len());
    assert(order.take(order.len() as int) =~= order);
    law_stack_order(g.active_player, found);
}

} // verus!
