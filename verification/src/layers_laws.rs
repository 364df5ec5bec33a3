//! What continuous effects and counters make of permanents, and whose abilities function.

use crate::ability::{ContinuousModification, StaticDefinition, TriggerDefinition};
use crate::effects::ring::bearer_of;
use crate::filter::{object_matches, reads_among, FilterContext};
use crate::functioning::{
    active_emblems, active_triggers, graveyards, phased_in, spells_on_stack, static_applies,
    trigger_sources,
};
use crate::ids::{CounterType, ObjectId, Supertype, Zone};
use crate::layers::{
    chosen_type, clamped, layered, layered_traits, layered_types, raised, reset, static_affects,
    traits_by_effects, traits_by_permanents, traits_by_statics, traits_modified, traits_settled,
    types_by_statics, types_modified, types_settled, unlayered, with_subtype, with_traits, Traits,
};
use crate::list::{lemma_items_of, list_of, list_rest, List};
use crate::object::{CardType, GameObject};
use crate::state::{Game, StackEntry};
use crate::text::Text;
use crate::triggers::conditions::condition_holds;
use vstd::prelude::*;

verus! {

/// What an object is before continuous effects is recorded once and given back ever after.
pub proof fn law_unlayered(o: GameObject)
    ensures
        ({
            let u = unlayered(o);
            &&& u.base_recorded
            &&& u.power == u.base_power && u.toughness == u.base_toughness
            &&& u.card_types == u.base_card_types && u.keywords == u.base_keywords
            &&& u.trigger_definitions == u.base_trigger_definitions
            &&& o.base_recorded ==> u.base_power == o.base_power && u.base_toughness
                == o.base_toughness && u.base_card_types == o.base_card_types && u.base_keywords
                == o.base_keywords && u.base_trigger_definitions == o.base_trigger_definitions
            &&& !o.base_recorded ==> u.power == o.power && u.toughness == o.toughness
                && u.card_types == o.card_types && u.keywords == o.keywords
                && u.trigger_definitions == o.trigger_definitions
            &&& u.counters == o.counters && u.controller == o.controller && u.owner == o.owner
                && u.zone == o.zone && u.damage_marked == o.damage_marked && u.tapped == o.tapped
        }),
{
    if o.base_recorded {
    } else {
    }
}

/// An object that is as it was before continuous effects stays so.
#[verifier::rlimit(60)]
pub proof fn law_unlayered_once(o: GameObject)
    ensures
        unlayered(unlayered(o)) == unlayered(o),
{
    let u = unlayered(o);
    assert(u.base_recorded);
    assert(unlayered(u) == (GameObject {
        power: u.base_power,
        toughness: u.base_toughness,
        card_types: u.base_card_types,
        keywords: u.base_keywords,
        trigger_definitions: u.base_trigger_definitions,
        ..u
    }));
}

/// An object with another type line.
#[verifier::opaque]
spec fn retyped(o: GameObject, types: CardType) -> GameObject {
    GameObject { card_types: types, ..o }
}

/// A type line that is settled twice alike is settled.
proof fn lemma_types_twice(o: GameObject, types: CardType)
    ensures
        retyped(retyped(o, types), types) == retyped(o, types),
{
    reveal(retyped);
}

/// Traits that are settled twice alike are settled.
proof fn lemma_traits_twice(o: GameObject, t: Traits)
    ensures
        with_traits(with_traits(o, t), t) == with_traits(o, t),
{
}

/// A sum is what it comes to, as far as it fits.
pub proof fn law_clamped(n: int)
    ensures
        i32::MIN <= n <= i32::MAX ==> clamped(n) == n,
        n > i32::MAX ==> clamped(n) == i32::MAX,
        n < i32::MIN ==> clamped(n) == i32::MIN,
{
}

/// The modifications of an effect are made one after the other: each raises power or toughness by
/// its value, or gives a keyword or a trigger besides those there are, and nothing else.
pub proof fn law_modifications(t: Traits, mods: List<ContinuousModification>)
    ensures
        mods.node is None ==> traits_modified(t, mods) == t,
        mods.node is Some ==> exists|u: Traits|
            {
                &&& traits_modified(t, mods) == #[trigger] traits_modified(u, list_rest(mods))
                &&& match mods@[0] {
                    ContinuousModification::AddPower { value } => u.power == (match t.power {
                        None => None,
                        Some(v) => Some(clamped(v + value)),
                    }) && u.toughness == t.toughness && u.keywords == t.keywords && u.triggers
                        == t.triggers,
                    ContinuousModification::AddToughness { value } => u.toughness == (
                    match t.toughness {
                        None => None,
                        Some(v) => Some(clamped(v + value)),
                    }) && u.power == t.power && u.keywords == t.keywords && u.triggers
                        == t.triggers,
                    ContinuousModification::AddKeyword { keyword } => u.keywords@
                        == t.keywords@.push(*keyword) && u.power == t.power && u.toughness
                        == t.toughness && u.triggers == t.triggers,
                    ContinuousModification::GrantTrigger { trigger } => u.triggers@
                        == t.triggers@.push(*trigger) && u.power == t.power && u.toughness
                        == t.toughness && u.keywords == t.keywords,
                    ContinuousModification::AddChosenCreatureType => u == t,
                }
            },
{
    if mods.node is Some {
        let rest = list_rest(mods);
        assert(mods@[0] == *mods.node->0.item);
        match mods@[0] {
            ContinuousModification::AddPower { value } => {
                let u = Traits { power: raised(t.power, value as int), ..t };
                assert(traits_modified(t, mods) == traits_modified(u, rest));
            },
            ContinuousModification::AddToughness { value } => {
                let u = Traits { toughness: raised(t.toughness, value as int), ..t };
                assert(traits_modified(t, mods) == traits_modified(u, rest));
            },
            ContinuousModification::AddKeyword { keyword } => {
                let gained = *keyword;
                lemma_items_of(t.keywords@.push(gained));
                let u = Traits { keywords: list_of(t.keywords@.push(gained)), ..t };
                assert(traits_modified(t, mods) == traits_modified(u, rest));
            },
            ContinuousModification::GrantTrigger { trigger } => {
                let gained = *trigger;
                lemma_items_of(t.triggers@.push(gained));
                let u = Traits { triggers: list_of(t.triggers@.push(gained)), ..t };
                assert(traits_modified(t, mods) == traits_modified(u, rest));
            },
            ContinuousModification::AddChosenCreatureType => {
                assert(traits_modified(t, mods) == traits_modified(t, rest));
            },
        }
    }
}

/// A static ability affects an object exactly if it is of the continuous kind, its source's
/// abilities function, its condition holds for its source, and the object is its source or, where
/// it says what it affects, such a one (CR 604.1, CR 611.3a).
pub proof fn law_affects(g: Game, source: GameObject, def: StaticDefinition, id: ObjectId)
    ensures
        static_affects(g, source, def, id) <==> def.mode is Continuous && !source.phased_out && (
        source.zone == Zone::Command ==> source.is_emblem) && (def.condition is Some
            ==> condition_holds(
            g,
            *def.condition->0,
            source.controller,
            Some(source.id),
            None,
        )) && (def.affected is None ==> id == source.id) && (def.affected is Some
            ==> object_matches(
            g,
            id,
            def.affected->0,
            FilterContext {
                source_id: source.id,
                controller: if g.objects.contains_key(source.id) {
                    Some(g.objects[source.id].controller)
                } else {
                    None
                },
                trigger_object: None,
            },
        )),
{
}

/// Of the static abilities of a permanent those that affect an object modify it, in their order,
/// and the others do not.
pub proof fn law_statics_modify(
    g: Game,
    source: GameObject,
    defs: List<StaticDefinition>,
    id: ObjectId,
    t: Traits,
)
    ensures
        defs.node is None ==> traits_by_statics(g, source, defs, id, t) == t,
        defs.node is Some && static_affects(g, source, defs@[0], id) ==> traits_by_statics(
            g,
            source,
            defs,
            id,
            t,
        ) == traits_by_statics(
            g,
            source,
            list_rest(defs),
            id,
            traits_modified(t, defs@[0].modifications),
        ),
        defs.node is Some && !static_affects(g, source, defs@[0], id) ==> traits_by_statics(
            g,
            source,
            defs,
            id,
            t,
        ) == traits_by_statics(g, source, list_rest(defs), id, t),
{
    if defs.node is Some {
        assert(defs@[0] == *defs.node->0.item);
    }
}

/// Of the lasting effects just those modify an object that affect it.
pub proof fn law_effects_modify(g: Game, id: ObjectId, t: Traits, n: nat)
    requires
        n < g.transient_continuous_effects.len(),
    ensures
        ({
            let effect = g.transient_continuous_effects[n as int];
            let before = traits_by_effects(g, id, t, n);
            let affected = object_matches(
                g,
                id,
                effect.affected,
                FilterContext {
                    source_id: effect.source_id,
                    controller: Some(effect.controller),
                    trigger_object: None,
                },
            );
            &&& affected ==> traits_by_effects(g, id, t, n + 1) == traits_modified(
                before,
                effect.modifications,
            )
            &&& !affected ==> traits_by_effects(g, id, t, n + 1) == before
            &&& traits_by_effects(g, id, t, 0) == t
        }),
{
}

/// CR 613.4c: counters count after all effects: each +1/+1 counter raises power and toughness by
/// one, and each -1/-1 counter lowers them. They give no abilities.
pub proof fn law_counters_count(g: Game, o: GameObject, id: ObjectId)
    ensures
        ({
            let printed = Traits {
                power: o.power,
                toughness: o.toughness,
                keywords: o.keywords,
                triggers: o.trigger_definitions,
            };
            let t = traits_by_effects(
                g,
                id,
                traits_by_permanents(g, id, printed, g.battlefield.len()),
                g.transient_continuous_effects.len(),
            );
            let r = layered_traits(g, o, id);
            let plus = o.counters.count(CounterType::Plus1Plus1) as int;
            let minus = o.counters.count(CounterType::Minus1Minus1) as int;
            &&& r.keywords == t.keywords
            &&& r.triggers == t.triggers
            &&& r.power is Some <==> t.power is Some
            &&& r.toughness is Some <==> t.toughness is Some
            &&& t.power is Some ==> r.power->0 == clamped(t.power->0 + plus - minus)
            &&& t.toughness is Some ==> r.toughness->0 == clamped(t.toughness->0 + plus - minus)
        }),
{
}

proof fn lemma_reset(g: Game, n: nat, id: ObjectId)
    requires
        n <= g.battlefield.len(),
    ensures
        reset(g, n).objects.dom() == g.objects.dom(),
        reset(g, n).battlefield == g.battlefield,
        g.objects.contains_key(id) ==> reset(g, n).objects[id] == (if g.battlefield.take(
            n as int,
        ).contains(id) {
            unlayered(g.objects[id])
        } else {
            g.objects[id]
        }),
    decreases n,
{
    if n > 0 {
        lemma_reset(g, (n - 1) as nat, id);
        lemma_taken(g.battlefield, n, id);
        let last = g.battlefield[n - 1];
        lemma_reset(g, (n - 1) as nat, last);
        assert(reset(g, n).objects.dom() =~= g.objects.dom());
        law_unlayered_once(g.objects[id]);
    }
    assert(reset(g, n).objects.dom() =~= g.objects.dom());
}

proof fn lemma_taken(ids: Seq<ObjectId>, n: nat, id: ObjectId)
    requires
        0 < n <= ids.len(),
    ensures
        ids.take(n as int).contains(id) <==> ids.take(n - 1).contains(id) || ids[n - 1] == id,
{
    let prior = ids.take(n - 1);
    let now = ids.take(n as int);
    if prior.contains(id) {
        let k = choose|k: int| 0 <= k < prior.len() && prior[k] == id;
        assert(now[k] == id);
    }
    if ids[n - 1] == id {
        assert(now[n - 1] == id);
    }
    if now.contains(id) {
        let k = choose|k: int| 0 <= k < now.len() && now[k] == id;
        if k < n - 1 {
            assert(prior[k] == id);
        }
    }
}

/// One more type line settled: what it is set to, and that all else stays.
proof fn lemma_types_step(g: Game, n: nat)
    requires
        0 < n <= g.battlefield.len(),
    ensures
        ({
            let last = g.battlefield[n - 1];
            let prior = types_settled(g, (n - 1) as nat);
            &&& g.objects.contains_key(last) && prior.objects.contains_key(last) ==> types_settled(
                g,
                n,
            ) == (Game {
                objects: prior.objects.insert(
                    last,
                    GameObject {
                        card_types: layered_types(g, g.objects[last], last),
                        ..prior.objects[last]
                    },
                ),
                ..prior
            })
            &&& !(g.objects.contains_key(last) && prior.objects.contains_key(last))
                ==> types_settled(g, n) == prior
        }),
{
}

/// The objects once the type lines of the first `n` permanents are settled.
spec fn typed_objects(g: Game, types: spec_fn(ObjectId) -> CardType, n: nat) -> Map<
    ObjectId,
    GameObject,
>
    decreases n,
{
    if n == 0 {
        g.objects
    } else {
        let prior = typed_objects(g, types, (n - 1) as nat);
        let last = g.battlefield[n - 1];
        if g.objects.contains_key(last) && prior.contains_key(last) {
            prior.insert(last, retyped(prior[last], types(last)))
        } else {
            prior
        }
    }
}

proof fn lemma_typed_objects(
    g: Game,
    types: spec_fn(ObjectId) -> CardType,
    n: nat,
    id: ObjectId,
)
    requires
        n <= g.battlefield.len(),
    ensures
        typed_objects(g, types, n).dom() == g.objects.dom(),
        g.objects.contains_key(id) ==> typed_objects(g, types, n)[id] == (if g.battlefield.take(
            n as int,
        ).contains(id) {
            retyped(g.objects[id], types(id))
        } else {
            g.objects[id]
        }),
    decreases n,
{
    if n > 0 {
        lemma_typed_objects(g, types, (n - 1) as nat, id);
        lemma_taken(g.battlefield, n, id);
        lemma_types_twice(g.objects[id], types(id));
        assert(typed_objects(g, types, n).dom() =~= g.objects.dom());
    }
}

proof fn lemma_types_are(g: Game, n: nat)
    requires
        n <= g.battlefield.len(),
    ensures
        types_settled(g, n) == (Game {
            objects: typed_objects(g, |id: ObjectId| layered_types(g, g.objects[id], id), n),
            ..g
        }),
    decreases n,
{
    if n > 0 {
        lemma_types_are(g, (n - 1) as nat);
        lemma_types_step(g, n);
        reveal(retyped);
    }
}

proof fn lemma_types_settled(g: Game, n: nat, id: ObjectId)
    requires
        n <= g.battlefield.len(),
    ensures
        types_settled(g, n).objects.dom() == g.objects.dom(),
        types_settled(g, n).battlefield == g.battlefield,
        g.objects.contains_key(id) ==> types_settled(g, n).objects[id] == (if g.battlefield.take(
            n as int,
        ).contains(id) {
            GameObject { card_types: layered_types(g, g.objects[id], id), ..g.objects[id] }
        } else {
            g.objects[id]
        }),
{
    lemma_types_are(g, n);
    reveal(retyped);
    lemma_typed_objects(g, |o: ObjectId| layered_types(g, g.objects[o], o), n, id);
}

proof fn lemma_traits_settled(g: Game, n: nat, id: ObjectId)
    requires
        n <= g.battlefield.len(),
    ensures
        traits_settled(g, n).objects.dom() == g.objects.dom(),
        traits_settled(g, n).battlefield == g.battlefield,
        g.objects.contains_key(id) ==> traits_settled(g, n).objects[id] == (if g.battlefield.take(
            n as int,
        ).contains(id) {
            with_traits(g.objects[id], layered_traits(g, g.objects[id], id))
        } else {
            g.objects[id]
        }),
    decreases n,
{
    if n > 0 {
        lemma_traits_settled(g, (n - 1) as nat, id);
        lemma_taken(g.battlefield, n, id);
        let last = g.battlefield[n - 1];
        lemma_traits_settled(g, (n - 1) as nat, last);
        lemma_traits_twice(g.objects[last], layered_traits(g, g.objects[last], last));
    }
    assert(traits_settled(g, n).objects.dom() =~= g.objects.dom());
}

/// Every permanent, and no other object, is made anew from what it is before continuous effects:
/// first its type line is settled on all permanents as they were before any, then its power, its
/// toughness and its abilities on all with their types settled (CR 613.1).
pub proof fn law_layered(g: Game, id: ObjectId)
    requires
        g.objects.contains_key(id),
    ensures
        ({
            let n = g.battlefield.len();
            let bare = reset(g, n);
            let typed = types_settled(bare, n);
            let r = layered(g);
            let types = layered_types(bare, unlayered(g.objects[id]), id);
            let seen = GameObject { card_types: types, ..unlayered(g.objects[id]) };
            let traits = layered_traits(typed, seen, id);
            &&& !r.layers_dirty
            &&& r.objects.contains_key(id)
            &&& !g.battlefield.contains(id) ==> r.objects[id] == g.objects[id]
            &&& g.battlefield.contains(id) ==> r.objects[id] == (GameObject {
                power: traits.power,
                toughness: traits.toughness,
                keywords: traits.keywords,
                trigger_definitions: traits.triggers,
                ..seen
            })
        }),
{
    let n = g.battlefield.len();
    let bare = reset(g, n);
    let typed = types_settled(bare, n);
    lemma_reset(g, n, id);
    lemma_types_settled(bare, n, id);
    lemma_traits_settled(typed, n, id);
    assert(g.battlefield.take(n as int) =~= g.battlefield);
}

/// An effect that gives the chosen creature type gives it once to a type line that does not have
/// it; no other modification touches a type line, nor does that one where no type was chosen.
pub proof fn law_chosen_type_given(
    subtypes: List<Text>,
    mods: List<ContinuousModification>,
    chosen: Option<Text>,
)
    ensures
        mods.node is None ==> types_modified(subtypes, mods, chosen) == subtypes,
        mods.node is Some && !(mods@[0] is AddChosenCreatureType && chosen is Some)
            ==> types_modified(subtypes, mods, chosen) == types_modified(
            subtypes,
            list_rest(mods),
            chosen,
        ),
        mods.node is Some && mods@[0] is AddChosenCreatureType && chosen is Some
            ==> types_modified(subtypes, mods, chosen) == types_modified(
            with_subtype(subtypes, chosen->0),
            list_rest(mods),
            chosen,
        ),
        chosen is Some && reads_among(subtypes, chosen->0@) ==> with_subtype(subtypes, chosen->0)
            == subtypes,
        chosen is Some && !reads_among(subtypes, chosen->0@) ==> with_subtype(
            subtypes,
            chosen->0,
        )@ == subtypes@.push(chosen->0),
{
    if mods.node is Some {
        assert(mods@[0] == *mods.node->0.item);
    }
    if let Some(text) = chosen {
        lemma_items_of(subtypes@.push(text));
    }
}

/// The type line of an object is given its chosen types by the static abilities that affect it, in
/// their order, with the type chosen for their source; and by no others.
pub proof fn law_statics_give_types(
    g: Game,
    source: GameObject,
    defs: List<StaticDefinition>,
    id: ObjectId,
    subtypes: List<Text>,
)
    ensures
        defs.node is None ==> types_by_statics(g, source, defs, id, subtypes) == subtypes,
        defs.node is Some && static_affects(g, source, defs@[0], id) ==> types_by_statics(
            g,
            source,
            defs,
            id,
            subtypes,
        ) == types_by_statics(
            g,
            source,
            list_rest(defs),
            id,
            types_modified(
                subtypes,
                defs@[0].modifications,
                chosen_type(source.chosen_attributes),
            ),
        ),
        defs.node is Some && !static_affects(g, source, defs@[0], id) ==> types_by_statics(
            g,
            source,
            defs,
            id,
            subtypes,
        ) == types_by_statics(g, source, list_rest(defs), id, subtypes),
{
    if defs.node is Some {
        assert(defs@[0] == *defs.node->0.item);
    }
}

/// The Ring-bearer is legendary, and no type line changes besides its subtypes and that
/// (CR 701.54c).
pub proof fn law_type_line(g: Game, o: GameObject, id: ObjectId, other: Supertype)
    ensures
        ({
            let types = layered_types(g, o, id);
            let bears = bearer_of(g, o.controller) == Some(id);
            &&& types.core_types == o.card_types.core_types
            &&& types.supertypes@.contains(Supertype::Legendary) <==> bears
                || o.card_types.supertypes@.contains(Supertype::Legendary)
            &&& other != Supertype::Legendary ==> (types.supertypes@.contains(other)
                <==> o.card_types.supertypes@.contains(other))
        }),
{
    let had = o.card_types.supertypes@;
    lemma_items_of(had.push(Supertype::Legendary));
    assert(had.push(Supertype::Legendary)[had.len() as int] == Supertype::Legendary);
    if had.contains(other) {
        let k = choose|k: int| 0 <= k < had.len() && had[k] == other;
        assert(had.push(Supertype::Legendary)[k] == other);
    }
}

/// The abilities of an object function unless it is phased out, or is in the command zone and no
/// emblem (CR 702.26b, CR 113.6p).
pub proof fn law_functions(g: Game, o: GameObject, def: StaticDefinition)
    ensures
        active_triggers(o)@ == (if !o.phased_out && (o.zone != Zone::Command || o.is_emblem) {
            o.trigger_definitions@
        } else {
            Seq::<TriggerDefinition>::empty()
        }),
        static_applies(g, o, def) <==> !o.phased_out && (o.zone != Zone::Command || o.is_emblem)
            && (def.condition is Some ==> condition_holds(
            g,
            *def.condition->0,
            o.controller,
            Some(o.id),
            None,
        )),
{
    lemma_items_of(Seq::<TriggerDefinition>::empty());
}

proof fn lemma_phased_in(g: Game, n: nat)
    requires
        n <= g.battlefield.len(),
    ensures
        phased_in(g, n) == g.battlefield.take(n as int).filter(
            |id: ObjectId| g.objects.contains_key(id) && !g.objects[id].phased_out,
        ),
    decreases n,
{
    reveal(Seq::filter);
    if n > 0 {
        lemma_phased_in(g, (n - 1) as nat);
        assert(g.battlefield.take(n as int).drop_last() =~= g.battlefield.take(n - 1));
    }
}

proof fn lemma_active_emblems(g: Game, n: nat)
    requires
        n <= g.command_zone.len(),
    ensures
        active_emblems(g, n) == g.command_zone.take(n as int).filter(
            |id: ObjectId|
                g.objects.contains_key(id) && g.objects[id].is_emblem && !g.objects[id].phased_out,
        ),
    decreases n,
{
    reveal(Seq::filter);
    if n > 0 {
        lemma_active_emblems(g, (n - 1) as nat);
        assert(g.command_zone.take(n as int).drop_last() =~= g.command_zone.take(n - 1));
    }
}

proof fn lemma_spells(g: Game, n: nat)
    requires
        n <= g.stack.len(),
    ensures
        spells_on_stack(g, n) == g.stack.take(n as int).filter(
            |e: StackEntry| e.kind is Spell,
        ).map_values(|e: StackEntry| e.id),
    decreases n,
{
    reveal(Seq::filter);
    let some = g.stack.take(n as int);
    if n > 0 {
        lemma_spells(g, (n - 1) as nat);
        assert(some.drop_last() =~= g.stack.take(n - 1));
    }
    assert(spells_on_stack(g, n) =~= some.filter(|e: StackEntry| e.kind is Spell).map_values(
        |e: StackEntry| e.id,
    ));
}

proof fn lemma_graveyards(g: Game, n: nat, id: ObjectId)
    requires
        n <= g.players.len(),
    ensures
        graveyards(g, n).contains(id) <==> exists|i: int|
            0 <= i < n && (#[trigger] g.players[i]).graveyard@.contains(id),
    decreases n,
{
    if n > 0 {
        lemma_graveyards(g, (n - 1) as nat, id);
        let before = graveyards(g, (n - 1) as nat);
        let last = g.players[n - 1].graveyard@;
        let all = before + last;
        if before.contains(id) {
            let k = choose|k: int| 0 <= k < before.len() && before[k] == id;
            assert(all[k] == id);
            let i = choose|i: int| 0 <= i < n - 1 && (#[trigger] g.players[i]).graveyard@.contains(id);
            assert(g.players[i].graveyard@.contains(id));
        }
        if last.contains(id) {
            let k = choose|k: int| 0 <= k < last.len() && last[k] == id;
            assert(all[before.len() + k] == id);
            assert(g.players[n - 1].graveyard@.contains(id));
        }
        if all.contains(id) {
            let k = choose|k: int| 0 <= k < all.len() && all[k] == id;
            if k < before.len() {
                assert(before[k] == id);
            } else {
                assert(last[k - before.len()] == id);
            }
        }
    }
}

/// Whose abilities may trigger in a zone: permanents that are phased in, the cards of all
/// graveyards, what is exiled, spells on the stack and emblems; nothing in a hand or a library
/// (CR 113.6, CR 603.6).
pub proof fn law_trigger_sources(g: Game, id: ObjectId)
    ensures
        trigger_sources(g, Zone::Battlefield) == g.battlefield.filter(
            |id: ObjectId| g.objects.contains_key(id) && !g.objects[id].phased_out,
        ),
        trigger_sources(g, Zone::Graveyard).contains(id) <==> exists|i: int|
            0 <= i < g.players.len() && (#[trigger] g.players[i]).graveyard@.contains(id),
        trigger_sources(g, Zone::Exile) == g.exile,
        trigger_sources(g, Zone::Stack) == g.stack.filter(
            |e: StackEntry| e.kind is Spell,
        ).map_values(|e: StackEntry| e.id),
        trigger_sources(g, Zone::Command) == g.command_zone.filter(
            |id: ObjectId|
                g.objects.contains_key(id) && g.objects[id].is_emblem && !g.objects[id].phased_out,
        ),
        trigger_sources(g, Zone::Hand).len() == 0,
        trigger_sources(g, Zone::Library).len() == 0,
{
    reveal(trigger_sources);
    lemma_phased_in(g, g.battlefield.len());
    lemma_active_emblems(g, g.command_zone.len());
    lemma_spells(g, g.stack.len());
    lemma_graveyards(g, g.players.len(), id);
    assert(g.battlefield.take(g.battlefield.len() as int) =~= g.battlefield);
    assert(g.command_zone.take(g.command_zone.len() as int) =~= g.command_zone);
    assert(g.stack.take(g.stack.len() as int) =~= g.stack);
}

} // verus!
