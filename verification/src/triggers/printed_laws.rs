//! The triggers that cards print: which of them an event sets off, in which zone, and with what
//! ability.

use crate::ability::{MayTriggerOrigin, ResolvedAbility, TriggerDefinition, TriggerMode};
use crate::events::GameEvent;
use crate::functioning::active_triggers;
use crate::ids::{ObjectId, PlayerId, Zone};
use crate::list::{lemma_items_of, list_of, list_rest, List};
use crate::matchers::{attack_events, trigger_matches};
use crate::object::GameObject;
use crate::state::Game;
use crate::triggers::collect::{
    batch_events, event_groups, fires, matched_from, matched_of, matched_trigger, matched_triggers,
    next_index, sets_off, suppressed, triggered_ability, MatchedTrigger,
};
use crate::triggers::conditions::{condition_holds, constraint_allows};
use vstd::prelude::*;

verus! {

/// What it takes for the printed trigger of an object that stands at an index to be set off by an
/// event, seen from a zone: the trigger works there (one that names no zones works on the
/// battlefield alone), it has fired neither on this event nor, if it fires once for a batch, in
/// this pass, it watches for the event, and neither its limit nor its condition is against it.
pub open spec fn is_set_off(
    g: Game,
    event: GameEvent,
    o: GameObject,
    i: int,
    zone: Zone,
    batched: Seq<(ObjectId, usize)>,
    registered: Seq<(ObjectId, usize)>,
) -> bool {
    let def = o.trigger_definitions@[i];
    &&& def.trigger_zones@.len() == 0 ==> zone == Zone::Battlefield
    &&& def.trigger_zones@.len() > 0 ==> def.trigger_zones@.contains(zone)
    &&& !registered.contains((o.id, i as usize))
    &&& def.batched ==> !batched.contains((o.id, i as usize))
    &&& trigger_matches(g, event, def, o.id)
    &&& def.constraint matches Some(c) ==> constraint_allows(
        g,
        *c,
        (o.id, i as usize),
        o.controller,
        event,
    )
    &&& def.condition matches Some(c) ==> condition_holds(
        g,
        *c,
        o.controller,
        Some(o.id),
        Some(event),
    )
}

/// Whether a trigger that was found is the printed one of an object at an index.
pub open spec fn is_printed(m: MatchedTrigger, o: GameObject, i: int, timestamp: u32) -> bool {
    let def = o.trigger_definitions@[i];
    &&& m.trig_idx == i
    &&& m.batched == def.batched
    &&& m.constraint == def.constraint
    &&& m.pending.source_id == o.id
    &&& m.pending.controller == o.controller
    &&& m.pending.condition == def.condition
    &&& m.pending.timestamp == timestamp
    &&& m.pending.description == def.description
    &&& m.pending.ability.source_id == o.id
    &&& m.pending.ability.controller == o.controller
    &&& m.pending.ability.ability_index == Some(i as usize)
    &&& m.pending.may_trigger_origin == Some(MayTriggerOrigin::Printed { trigger_index: i as usize })
    &&& m.pending.target_constraints@.len() == 0
    &&& m.trigger_events@.len() > 0 ==> m.pending.trigger_event == Some(m.trigger_events@[0])
    &&& m.trigger_events@.len() == 0 ==> m.pending.trigger_event is None
    &&& def.execute is None ==> m.pending.modal is None && m.pending.mode_abilities is None
        && m.pending.distribute is None
    &&& def.execute matches Some(x) ==> m.pending.ability.effect == x.effect
        && m.pending.modal == x.modal && m.pending.mode_abilities == x.mode_abilities
        && m.pending.distribute == x.distribute
}

proof fn lemma_matched_sound(
    g: Game,
    event: GameEvent,
    batch: Seq<GameEvent>,
    o: GameObject,
    defs: List<TriggerDefinition>,
    from: usize,
    timestamp: u32,
    zone: Zone,
    batched: Seq<(ObjectId, usize)>,
    registered: Seq<(ObjectId, usize)>,
    k: int,
) -> (i: int)
    requires
        from + defs@.len() <= usize::MAX,
        from + defs@.len() == o.trigger_definitions@.len(),
        forall|j: int|
            0 <= j < defs@.len() ==> #[trigger] defs@[j] == o.trigger_definitions@[from + j],
        0 <= k < matched_from(
            g,
            event,
            batch,
            o,
            defs,
            from,
            timestamp,
            Some(zone),
            batched,
            registered,
        ).len(),
    ensures
        from <= i < o.trigger_definitions@.len(),
        is_set_off(g, event, o, i, zone, batched, registered),
        is_printed(
            matched_from(
                g,
                event,
                batch,
                o,
                defs,
                from,
                timestamp,
                Some(zone),
                batched,
                registered,
            )[k],
            o,
            i,
            timestamp,
        ),
    decreases defs,
{
    let def = *defs.node->0.item;
    let rest = list_rest(defs);
    let next = next_index(from);
    assert(defs@[0] == def);
    assert(o.trigger_definitions@[from + 0] == def);
    let here = matched_of(
        g,
        event,
        batch,
        o,
        def,
        from,
        timestamp,
        Some(zone),
        batched,
        registered,
    );
    let there = matched_from(
        g,
        event,
        batch,
        o,
        rest,
        next,
        timestamp,
        Some(zone),
        batched,
        registered,
    );
    if k < here.len() {
        assert(fires(g, event, o, def, from, Some(zone), batched, registered));
        assert((here + there)[k] == here[k]);
        from as int
    } else {
        assert((here + there)[k] == there[k - here.len()]);
        assert forall|j: int| 0 <= j < rest@.len() implies #[trigger] rest@[j]
            == o.trigger_definitions@[next + j] by {
            assert(rest@[j] == defs@[j + 1]);
        }
        assert(rest@.len() == defs@.len() - 1);
        lemma_matched_sound(
            g,
            event,
            batch,
            o,
            rest,
            next,
            timestamp,
            zone,
            batched,
            registered,
            k - here.len(),
        )
    }
}

/// Every trigger of an object that an event is found to set off is one that the object prints and
/// that is set off, with the printed effect, condition and choices. An object that is phased out,
/// or one in the command zone that is no emblem, has none.
pub proof fn law_matched(
    g: Game,
    event: GameEvent,
    batch: Seq<GameEvent>,
    o: GameObject,
    timestamp: u32,
    zone: Zone,
    batched: Seq<(ObjectId, usize)>,
    registered: Seq<(ObjectId, usize)>,
    k: int,
)
    requires
        o.trigger_definitions@.len() <= usize::MAX,
        0 <= k < matched_triggers(
            g,
            event,
            batch,
            o,
            timestamp,
            Some(zone),
            batched,
            registered,
        ).len(),
    ensures
        !o.phased_out,
        o.zone == Zone::Command ==> o.is_emblem,
        exists|i: int|
            0 <= i < o.trigger_definitions@.len() && is_set_off(
                g,
                event,
                o,
                i,
                zone,
                batched,
                registered,
            ) && #[trigger] is_printed(
                matched_triggers(
                    g,
                    event,
                    batch,
                    o,
                    timestamp,
                    Some(zone),
                    batched,
                    registered,
                )[k],
                o,
                i,
                timestamp,
            ),
{
    reveal(matched_triggers);
    let matched = matched_triggers(
        g,
        event,
        batch,
        o,
        timestamp,
        Some(zone),
        batched,
        registered,
    );
    let defs = active_triggers(o);
    assert(defs.node is Some);
    let i = lemma_matched_sound(
        g,
        event,
        batch,
        o,
        defs,
        0,
        timestamp,
        zone,
        batched,
        registered,
        k,
    );
    assert(is_printed(matched[k], o, i, timestamp));
}

proof fn lemma_matched_complete(
    g: Game,
    event: GameEvent,
    batch: Seq<GameEvent>,
    o: GameObject,
    defs: List<TriggerDefinition>,
    from: usize,
    timestamp: u32,
    zone: Zone,
    batched: Seq<(ObjectId, usize)>,
    registered: Seq<(ObjectId, usize)>,
    i: int,
) -> (k: int)
    requires
        from + defs@.len() <= usize::MAX,
        from + defs@.len() == o.trigger_definitions@.len(),
        forall|j: int|
            0 <= j < defs@.len() ==> #[trigger] defs@[j] == o.trigger_definitions@[from + j],
        from <= i < o.trigger_definitions@.len(),
        is_set_off(g, event, o, i, zone, batched, registered),
        !o.trigger_definitions@[i].batched,
        !(o.trigger_definitions@[i].mode == TriggerMode::Attacks
            && o.trigger_definitions@[i].condition is None),
    ensures
        0 <= k < matched_from(
            g,
            event,
            batch,
            o,
            defs,
            from,
            timestamp,
            Some(zone),
            batched,
            registered,
        ).len(),
        matched_from(
            g,
            event,
            batch,
            o,
            defs,
            from,
            timestamp,
            Some(zone),
            batched,
            registered,
        )[k] == matched_trigger(
            g,
            o,
            o.trigger_definitions@[i],
            i as usize,
            timestamp,
            list_of(seq![event]),
        ),
    decreases defs,
{
    let def = *defs.node->0.item;
    let rest = list_rest(defs);
    let next = next_index(from);
    assert(defs@[0] == def);
    assert(o.trigger_definitions@[from + 0] == def);
    let here = matched_of(
        g,
        event,
        batch,
        o,
        def,
        from,
        timestamp,
        Some(zone),
        batched,
        registered,
    );
    let there = matched_from(
        g,
        event,
        batch,
        o,
        rest,
        next,
        timestamp,
        Some(zone),
        batched,
        registered,
    );
    if i == from {
        assert(fires(g, event, o, def, from, Some(zone), batched, registered));
        assert(event_groups(g, event, batch, def, o.id, o.controller) == seq![
            list_of(seq![event]),
        ]);
        assert((here + there)[0] == here[0]);
        0
    } else {
        assert forall|j: int| 0 <= j < rest@.len() implies #[trigger] rest@[j]
            == o.trigger_definitions@[next + j] by {
            assert(rest@[j] == defs@[j + 1]);
        }
        assert(rest@.len() == defs@.len() - 1);
        let k = lemma_matched_complete(
            g,
            event,
            batch,
            o,
            rest,
            next,
            timestamp,
            zone,
            batched,
            registered,
            i,
        );
        assert((here + there)[here.len() + k] == there[k]);
        here.len() + k
    }
}

/// A printed trigger of an object that functions is found when an event sets it off, with that
/// event.
pub proof fn law_set_off_is_matched(
    g: Game,
    event: GameEvent,
    batch: Seq<GameEvent>,
    o: GameObject,
    timestamp: u32,
    zone: Zone,
    batched: Seq<(ObjectId, usize)>,
    registered: Seq<(ObjectId, usize)>,
    i: int,
)
    requires
        o.trigger_definitions@.len() <= usize::MAX,
        !o.phased_out,
        o.zone == Zone::Command ==> o.is_emblem,
        0 <= i < o.trigger_definitions@.len(),
        is_set_off(g, event, o, i, zone, batched, registered),
        !o.trigger_definitions@[i].batched,
        !(o.trigger_definitions@[i].mode == TriggerMode::Attacks
            && o.trigger_definitions@[i].condition is None),
    ensures
        exists|k: int|
            0 <= k < matched_triggers(
                g,
                event,
                batch,
                o,
                timestamp,
                Some(zone),
                batched,
                registered,
            ).len() && is_printed(
                #[trigger] matched_triggers(
                    g,
                    event,
                    batch,
                    o,
                    timestamp,
                    Some(zone),
                    batched,
                    registered,
                )[k],
                o,
                i,
                timestamp,
            ) && matched_triggers(
                g,
                event,
                batch,
                o,
                timestamp,
                Some(zone),
                batched,
                registered,
            )[k].pending.trigger_event == Some(event),
{
    reveal(matched_triggers);
    let matched = matched_triggers(
        g,
        event,
        batch,
        o,
        timestamp,
        Some(zone),
        batched,
        registered,
    );
    let k = lemma_matched_complete(
        g,
        event,
        batch,
        o,
        active_triggers(o),
        0,
        timestamp,
        zone,
        batched,
        registered,
        i,
    );
    lemma_items_of(seq![event]);
    assert(is_printed(matched[k], o, i, timestamp));
}

/// The ability of a printed trigger does what the card says, for the source and its controller,
/// unless what the trigger asks for is paid. It knows from where its source was cast and which
/// kickers were paid, and in a trigger on a phase "that player" is the active player.
pub proof fn law_printed_ability(
    g: Game,
    def: TriggerDefinition,
    source_id: ObjectId,
    controller: PlayerId,
)
    requires
        def.execute is Some,
    ensures
        ({
            let ability = triggered_ability(g, def, source_id, controller);
            let printed = *def.execute->0;
            &&& ability.effect == printed.effect
            &&& ability.kind == printed.kind
            &&& ability.source_id == source_id
            &&& ability.controller == controller
            &&& ability.targets@.len() == 0
            &&& ability.condition == printed.condition
            &&& ability.duration == printed.duration
            &&& ability.optional == printed.optional
            &&& ability.multi_target == printed.multi_target
            &&& ability.repeat_for == printed.repeat_for
            &&& ability.player_scope == printed.player_scope
            &&& ability.unless_pay == def.unless_pay
            &&& ability.sub_ability is Some <==> printed.sub_ability is Some
            &&& printed.sub_ability matches Some(sub) ==> ability.sub_ability->0.effect
                == sub.effect
            &&& printed.description is Some ==> ability.description == printed.description
            &&& printed.description is None ==> ability.description == def.description
            &&& def.mode == TriggerMode::Phase ==> ability.scoped_player == Some(g.active_player)
            &&& def.mode != TriggerMode::Phase ==> ability.scoped_player is None
            &&& g.objects.contains_key(source_id) ==> ability.context.cast_from_zone
                == g.objects[source_id].cast_from_zone && ability.context.kickers_paid@
                == g.objects[source_id].kickers_paid@ && (ability.context.additional_cost_paid
                <==> g.objects[source_id].kickers_paid@.len() > 0)
        }),
{
    lemma_items_of(Seq::<crate::ids::TargetRef>::empty());
    reveal_with_fuel(crate::targeting::resolved_from, 3);
    reveal_with_fuel(ResolvedAbility::with_scoped_player, 3);
}

/// A trigger that fires once for a batch goes with all the events of the batch that it watches
/// for, that are not suppressed and that its condition holds on.
pub proof fn law_batch_events(
    g: Game,
    batch: Seq<GameEvent>,
    def: TriggerDefinition,
    id: ObjectId,
    controller: PlayerId,
)
    ensures
        batch_events(g, batch, def, id, controller, batch.len()) == batch.filter(
            |e: GameEvent|
                !suppressed(g, e) && trigger_matches(g, e, def, id) && (def.condition is Some
                    ==> condition_holds(g, *def.condition->0, controller, Some(id), Some(e))),
        ),
{
    let test = |e: GameEvent|
        !suppressed(g, e) && trigger_matches(g, e, def, id) && (def.condition is Some
            ==> condition_holds(g, *def.condition->0, controller, Some(id), Some(e)));
    lemma_batch_events(g, batch, def, id, controller, batch.len(), test);
    assert(batch.take(batch.len() as int) =~= batch);
}

proof fn lemma_batch_events(
    g: Game,
    batch: Seq<GameEvent>,
    def: TriggerDefinition,
    id: ObjectId,
    controller: PlayerId,
    n: nat,
    test: spec_fn(GameEvent) -> bool,
)
    requires
        n <= batch.len(),
        forall|e: GameEvent| #[trigger] test(e) == sets_off(g, e, def, id, controller),
    ensures
        batch_events(g, batch, def, id, controller, n) == batch.take(n as int).filter(test),
    decreases n,
{
    reveal(Seq::filter);
    if n > 0 {
        lemma_batch_events(g, batch, def, id, controller, (n - 1) as nat, test);
        assert(batch.take(n as int).drop_last() =~= batch.take(n - 1));
    } else {
        assert(batch.take(0).filter(test) =~= seq![]);
    }
}

/// A printed trigger that an event sets off goes off once, with that event. One that goes off once
/// for a batch goes with those events of the batch that set it off, together; and one that watches
/// attacks and asks for nothing else goes off for each attack by itself (CR 603.2c, CR 508.1m).
pub proof fn law_instances(
    g: Game,
    event: GameEvent,
    batch: Seq<GameEvent>,
    o: GameObject,
    def: TriggerDefinition,
    idx: usize,
    timestamp: u32,
    zone: Option<Zone>,
    batched: Seq<(ObjectId, usize)>,
    registered: Seq<(ObjectId, usize)>,
    k: int,
)
    ensures
        ({
            let r = matched_of(
                g,
                event,
                batch,
                o,
                def,
                idx,
                timestamp,
                zone,
                batched,
                registered,
            );
            let set_off = fires(g, event, o, def, idx, zone, batched, registered);
            let together = batch_events(g, batch, def, o.id, o.controller, batch.len());
            let apart = attack_events(g, event, def, o.id);
            let by_attack = !def.batched && def.mode == TriggerMode::Attacks && def.condition is None;
            &&& !set_off ==> r.len() == 0
            &&& set_off && !def.batched && !by_attack ==> r.len() == 1 && r[0].trigger_events@
                == seq![event]
            &&& set_off && def.batched && together.len() > 0 ==> r.len() == 1
                && r[0].trigger_events@ == together
            &&& set_off && def.batched && together.len() == 0 ==> r.len() == 0
            &&& set_off && by_attack ==> r.len() == apart.len()
            &&& set_off && by_attack && 0 <= k < r.len() ==> r[k].trigger_events@ == seq![apart[k]]
        }),
{
    let together = batch_events(g, batch, def, o.id, o.controller, batch.len());
    let apart = attack_events(g, event, def, o.id);
    lemma_items_of(seq![event]);
    lemma_items_of(together);
    if 0 <= k < apart.len() {
        lemma_items_of(seq![apart[k]]);
    }
}

/// The triggers of an object are looked at one after the other, in the order in which it prints
/// them, and what each contributes is kept.
pub proof fn law_one_trigger_after_another(
    g: Game,
    event: GameEvent,
    batch: Seq<GameEvent>,
    o: GameObject,
    defs: List<TriggerDefinition>,
    idx: usize,
    timestamp: u32,
    zone: Option<Zone>,
    batched: Seq<(ObjectId, usize)>,
    registered: Seq<(ObjectId, usize)>,
)
    requires
        idx < usize::MAX,
    ensures
        defs.node is None ==> matched_from(
            g,
            event,
            batch,
            o,
            defs,
            idx,
            timestamp,
            zone,
            batched,
            registered,
        ).len() == 0,
        defs.node is Some ==> matched_from(
            g,
            event,
            batch,
            o,
            defs,
            idx,
            timestamp,
            zone,
            batched,
            registered,
        ) == matched_of(
            g,
            event,
            batch,
            o,
            defs@[0],
            idx,
            timestamp,
            zone,
            batched,
            registered,
        ) + matched_from(
            g,
            event,
            batch,
            o,
            list_rest(defs),
            (idx + 1) as usize,
            timestamp,
            zone,
            batched,
            registered,
        ),
{
    if defs.node is Some {
        assert(defs@[0] == *defs.node->0.item);
    }
}

} // verus!
