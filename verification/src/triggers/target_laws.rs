//! What triggers can target, how they get their targets, and what becomes of them then.

use crate::ability::{
    law_keywords, zone_property, AbilityDefinition, Effect, FilterProp, Keyword, ManaProduction,
    PlayerFilter, QuantityExpr, ResolvedAbility, TargetFilter, TargetSelectionConstraint,
    TargetSelectionMode, TypedFilter,
};
use crate::events::GameEvent;
use crate::filter::{object_matches, player_matches, FilterContext};
use crate::functioning::trigger_sources;
use crate::ids::{CoreType, ManaColor, ManaType, ObjectId, PlayerId, TargetRef, Zone};
use crate::list::{lemma_items_of, list_of, list_rest, List};
use crate::mana::{mana_made, mana_of, mana_recipient, mana_units, produced_mana};
use crate::protection::has_protection;
use crate::quantity::quantity;
use crate::state::{lemma_first_seat, Game};
use crate::targeting::{
    all_targets, auto_choice, can_target, chain_slots, effect_slots, effect_targets, fixed_total,
    is_open, is_stuck, legal_targets, names_players, object_targets, only_target, own_slots, picked,
    player_targets, random_choice, random_target, repeats, resolved_from, rng_after, rng_next,
    slots_end, target_zone, with_targets, TargetChoice, TargetSlot,
};
use crate::triggers::collect::PendingTriggerContext;
use crate::triggers::placing::{one_placed, placed, pushed, targeted_placed};
use crate::triggers::PendingTrigger;
use vstd::prelude::*;

verus! {

/// Whether a filter names what the context of an ability settles, so that nothing is chosen.
pub open spec fn settled_by_context(f: TargetFilter) -> bool {
    match f {
        TargetFilter::Any => false,
        TargetFilter::Player => false,
        TargetFilter::Typed(_) => false,
        TargetFilter::Not { .. } => false,
        TargetFilter::Or { .. } => false,
        TargetFilter::And { .. } => false,
        _ => true,
    }
}

/// The targets of an effect are drawn from its filter, unless the context settles what that names;
/// a sacrifice takes none, nor does what is chosen in a hand or a library (CR 115.10).
pub proof fn law_effect_targets(effect: Effect)
    ensures
        match effect {
            Effect::DealDamage { target, .. } => effect_targets(effect) == (if settled_by_context(
                target,
            ) {
                None
            } else {
                Some(target)
            }),
            Effect::Destroy { target, .. } => effect_targets(effect) == (if settled_by_context(
                target,
            ) {
                None
            } else {
                Some(target)
            }),
            Effect::Bounce { target, .. } => effect_targets(effect) == (if settled_by_context(
                target,
            ) {
                None
            } else {
                Some(target)
            }),
            Effect::Draw { target, .. } => effect_targets(effect) == (if settled_by_context(
                target,
            ) {
                None
            } else {
                Some(target)
            }),
            Effect::Pump { target, .. } => effect_targets(effect) == (if settled_by_context(
                target,
            ) {
                None
            } else {
                Some(target)
            }),
            Effect::PutCounter { target, .. } => effect_targets(effect) == (if settled_by_context(
                target,
            ) {
                None
            } else {
                Some(target)
            }),
            Effect::Counter { target } => effect_targets(effect) == (if settled_by_context(
                target,
            ) {
                None
            } else {
                Some(target)
            }),
            Effect::Goad { target } => effect_targets(effect) == (if settled_by_context(target) {
                None
            } else {
                Some(target)
            }),
            Effect::ChangeZone { origin, target, .. } => (origin == Some(Zone::Hand) || origin
                == Some(Zone::Library) ==> effect_targets(effect) is None) && (origin is Some
                && origin != Some(Zone::Hand) && origin != Some(Zone::Library)
                && !settled_by_context(target) ==> effect_targets(effect) == Some(target)),
            Effect::LoseLife { target, .. } => target is None ==> effect_targets(effect) is None,
            Effect::Sacrifice { .. } => effect_targets(effect) is None,
            Effect::PairWith { .. } => effect_targets(effect) is None,
            Effect::Scry { .. } => effect_targets(effect) is None,
            Effect::GainLife { .. } => effect_targets(effect) is None,
            Effect::VentureInto { .. } => effect_targets(effect) is None,
            _ => true,
        },
{
}

/// A printed ability goes on the stack as it is printed, for its source and its controller, with
/// no targets yet; and so does all that follows in it.
pub proof fn law_as_printed(def: AbilityDefinition, source: ObjectId, controller: PlayerId)
    ensures
        ({
            let r = resolved_from(def, source, controller);
            &&& r.kind == def.kind && r.effect == def.effect
            &&& r.targets@.len() == 0
            &&& r.source_id == source && r.controller == controller
            &&& r.condition == def.condition && r.duration == def.duration
            &&& r.optional == def.optional && r.optional_targeting == def.optional_targeting
            &&& r.multi_target == def.multi_target
            &&& r.target_selection_mode == def.target_selection_mode
            &&& r.player_scope == def.player_scope && r.repeat_for == def.repeat_for
            &&& r.sub_ability is Some <==> def.sub_ability is Some
            &&& def.sub_ability is Some ==> *r.sub_ability->0 == resolved_from(
                *def.sub_ability->0,
                source,
                controller,
            )
        }),
{
    lemma_items_of(Seq::<TargetRef>::empty());
}

/// An object can be a target exactly if the filter lets it through, it has no shroud and no
/// protection from the source; and, where any target will do, it is a creature, a planeswalker or
/// a battle (CR 115.4, CR 702.16b, CR 702.18a).
pub proof fn law_can_target(g: Game, id: ObjectId, f: TargetFilter, ctx: FilterContext)
    ensures
        can_target(g, id, f, ctx) <==> object_matches(g, id, f, ctx) && g.objects.contains_key(id)
            && !has_protection(g, id, ctx.source_id) && !g.objects[id].keywords@.contains(
            Keyword::Shroud,
        ) && (f == TargetFilter::Any ==> g.objects[id].card_types.core_types@.contains(
            CoreType::Creature,
        ) || g.objects[id].card_types.core_types@.contains(CoreType::Planeswalker)
            || g.objects[id].card_types.core_types@.contains(CoreType::Battle)),
{
    if g.objects.contains_key(id) {
        law_keywords(g.objects[id].keywords);
    }
}

/// A filter is about players alone where it names players, or says no more than whose opponent or
/// whose controller one is.
pub proof fn law_names_players(f: TargetFilter, typed: TypedFilter)
    ensures
        names_players(TargetFilter::Player),
        names_players(TargetFilter::Typed(typed)) <==> typed.type_filters@.len() == 0
            && typed.properties@.len() == 0 && typed.controller is Some,
        f != TargetFilter::Player && !(f is Typed) ==> !names_players(f),
{
}

/// A filter is about the zone that its first zone property names, else about the battlefield.
pub proof fn law_target_zone(f: TargetFilter, typed: TypedFilter, zone: Zone, k: int)
    ensures
        !(f is Typed) ==> target_zone(f) == Zone::Battlefield,
        0 <= k < typed.properties@.len() && typed.properties@[k] == (FilterProp::InZone { zone })
            && (forall|j: int| 0 <= j < k ==> !(#[trigger] typed.properties@[j] is InZone))
            ==> target_zone(TargetFilter::Typed(typed)) == zone,
        (forall|j: int|
            0 <= j < typed.properties@.len() ==> !(#[trigger] typed.properties@[j] is InZone))
            ==> target_zone(TargetFilter::Typed(typed)) == Zone::Battlefield,
{
    if 0 <= k < typed.properties@.len() {
        lemma_zone_property(typed.properties, k);
    }
    lemma_no_zone_property(typed.properties);
}

proof fn lemma_zone_property(properties: List<FilterProp>, k: int)
    requires
        0 <= k < properties@.len(),
    ensures
        properties@[k] is InZone && (forall|j: int|
            0 <= j < k ==> !(#[trigger] properties@[j] is InZone)) ==> zone_property(properties)
            == Some(properties@[k]->InZone_zone),
    decreases properties,
{
    let rest = list_rest(properties);
    let items = properties@;
    let tail = rest@;
    assert(items[0] == *properties.node->0.item);
    assert(items.len() == tail.len() + 1);
    assert forall|j: int| 0 <= j < tail.len() implies #[trigger] tail[j] == items[j + 1] by {}
    if k > 0 {
        lemma_zone_property(rest, k - 1);
        if items[k] is InZone && (forall|j: int| 0 <= j < k ==> !(#[trigger] items[j] is InZone)) {
            assert(!(items[0] is InZone));
            assert forall|j: int| 0 <= j < k - 1 implies !(#[trigger] tail[j] is InZone) by {
                assert(!(items[j + 1] is InZone));
            }
            assert(tail[k - 1] == items[k]);
        }
    }
}

proof fn lemma_no_zone_property(properties: List<FilterProp>)
    ensures
        (forall|j: int| 0 <= j < properties@.len() ==> !(#[trigger] properties@[j] is InZone))
            ==> zone_property(properties) is None,
    decreases properties,
{
    if properties.node is Some {
        let rest = list_rest(properties);
        let items = properties@;
        let tail = rest@;
        lemma_no_zone_property(rest);
        assert(items[0] == *properties.node->0.item);
        assert(items.len() == tail.len() + 1);
        assert forall|j: int| 0 <= j < tail.len() implies #[trigger] tail[j] == items[j + 1] by {}
        if forall|j: int| 0 <= j < items.len() ==> !(#[trigger] items[j] is InZone) {
            assert(!(items[0] is InZone));
            assert forall|j: int| 0 <= j < tail.len() implies !(#[trigger] tail[j] is InZone) by {
                assert(!(items[j + 1] is InZone));
            }
        }
    }
}

proof fn lemma_object_targets(
    g: Game,
    ids: Seq<ObjectId>,
    f: TargetFilter,
    ctx: FilterContext,
    n: nat,
)
    requires
        n <= ids.len(),
    ensures
        object_targets(g, ids, f, ctx, n) == ids.take(n as int).filter(
            |id: ObjectId| can_target(g, id, f, ctx),
        ).map_values(|id: ObjectId| TargetRef::Object(id)),
    decreases n,
{
    reveal(Seq::filter);
    let some = ids.take(n as int);
    if n > 0 {
        lemma_object_targets(g, ids, f, ctx, (n - 1) as nat);
        assert(some.drop_last() =~= ids.take(n - 1));
    }
    assert(object_targets(g, ids, f, ctx, n) =~= some.filter(
        |id: ObjectId| can_target(g, id, f, ctx),
    ).map_values(|id: ObjectId| TargetRef::Object(id)));
}

proof fn lemma_player_targets(
    g: Game,
    f: TargetFilter,
    ctx: FilterContext,
    n: nat,
    target: TargetRef,
)
    requires
        n <= g.players.len(),
    ensures
        player_targets(g, f, ctx, n).contains(target) <==> exists|i: int|
            0 <= i < n && TargetRef::Player((#[trigger] g.players[i]).id) == target
                && !g.players[i].is_eliminated && f !is Not && player_matches(
                g.players[i].id,
                f,
                ctx,
            ),
    decreases n,
{
    if n > 0 {
        lemma_player_targets(g, f, ctx, (n - 1) as nat, target);
        let before = player_targets(g, f, ctx, (n - 1) as nat);
        let after = player_targets(g, f, ctx, n);
        let p = g.players[n - 1];
        if before.contains(target) {
            let k = choose|k: int| 0 <= k < before.len() && before[k] == target;
            assert(after[k] == target);
            let i = choose|i: int|
                0 <= i < n - 1 && TargetRef::Player((#[trigger] g.players[i]).id) == target
                    && !g.players[i].is_eliminated && f !is Not && player_matches(
                    g.players[i].id,
                    f,
                    ctx,
                );
            assert(TargetRef::Player(g.players[i].id) == target);
        }
        if TargetRef::Player(p.id) == target && !p.is_eliminated && f !is Not && player_matches(
            p.id,
            f,
            ctx,
        ) {
            assert(after[before.len() as int] == target);
        }
        if after.contains(target) && !before.contains(target) {
            let k = choose|k: int| 0 <= k < after.len() && after[k] == target;
            if k < before.len() {
                assert(before[k] == target);
            }
            assert(TargetRef::Player(g.players[n - 1].id) == target);
        }
    }
}

/// The legal targets of an ability are the objects of the filter's zone that it can target, unless
/// the filter is about players alone, and the players still in the game that the filter lets
/// through (CR 115.1).
pub proof fn law_legal_targets(
    g: Game,
    f: TargetFilter,
    source: ObjectId,
    controller: PlayerId,
    id: ObjectId,
    player: PlayerId,
)
    ensures
        ({
            let ctx = FilterContext {
                source_id: source,
                controller: Some(controller),
                trigger_object: None,
            };
            let legal = legal_targets(g, f, source, controller);
            &&& legal.contains(TargetRef::Object(id)) <==> !names_players(f) && target_zone(f)
                != Zone::Command && trigger_sources(g, target_zone(f)).contains(id) && can_target(
                g,
                id,
                f,
                ctx,
            )
            &&& legal.contains(TargetRef::Player(player)) <==> f !is Not && player_matches(
                player,
                f,
                ctx,
            ) && exists|i: int|
                0 <= i < g.players.len() && (#[trigger] g.players[i]).id == player
                    && !g.players[i].is_eliminated
        }),
{
    let ctx = FilterContext { source_id: source, controller: Some(controller), trigger_object: None };
    let ids = if names_players(f) || target_zone(f) == Zone::Command {
        seq![]
    } else {
        trigger_sources(g, target_zone(f))
    };
    let objects = object_targets(g, ids, f, ctx, ids.len());
    let players = player_targets(g, f, ctx, g.players.len());
    let legal = legal_targets(g, f, source, controller);
    assert(legal == objects + players);
    lemma_object_targets(g, ids, f, ctx, ids.len());
    assert(ids.take(ids.len() as int) =~= ids);
    let keep = |o: ObjectId| can_target(g, o, f, ctx);
    let kept = ids.filter(keep);
    if kept.contains(id) {
        ids.lemma_filter_contains_rev(keep, id);
        let k = choose|k: int| 0 <= k < kept.len() && kept[k] == id;
        ids.lemma_filter_pred(keep, k);
    }
    if ids.contains(id) && can_target(g, id, f, ctx) {
        let k = choose|k: int| 0 <= k < ids.len() && ids[k] == id;
        ids.lemma_filter_contains(keep, k);
    }
    lemma_player_targets(g, f, ctx, g.players.len(), TargetRef::Player(player));
    lemma_player_targets(g, f, ctx, g.players.len(), TargetRef::Object(id));
    if legal.contains(TargetRef::Object(id)) {
        let k = choose|k: int| 0 <= k < legal.len() && legal[k] == TargetRef::Object(id);
        if k < objects.len() {
            assert(kept[k] == id);
            assert(kept.contains(id));
        } else {
            assert(players[k - objects.len()] == TargetRef::Object(id));
            assert(players.contains(TargetRef::Object(id)));
        }
    }
    if kept.contains(id) {
        let k = choose|k: int| 0 <= k < kept.len() && kept[k] == id;
        assert(legal[k] == TargetRef::Object(id));
    }
    if legal.contains(TargetRef::Player(player)) {
        let k = choose|k: int| 0 <= k < legal.len() && legal[k] == TargetRef::Player(player);
        assert(k >= objects.len());
        assert(players[k - objects.len()] == TargetRef::Player(player));
        assert(players.contains(TargetRef::Player(player)));
    }
    if players.contains(TargetRef::Player(player)) {
        let k = choose|k: int| 0 <= k < players.len() && players[k] == TargetRef::Player(player);
        assert(legal[objects.len() + k] == TargetRef::Player(player));
    }
}

/// An ability has as many slots as it may take targets, each open to all that are legal; it may
/// leave one empty beyond those that it must fill, or any if its targets are optional. One that
/// must take more targets than there are has none to offer (CR 601.2c, CR 603.3d).
pub proof fn law_slots(g: Game, ability: ResolvedAbility, f: TargetFilter, i: int)
    ensures
        ({
            let legal = legal_targets(g, f, ability.source_id, ability.controller);
            let least: nat = match ability.multi_target {
                None => 1,
                Some(m) => m.min as nat,
            };
            let most: nat = match ability.multi_target {
                None => 1,
                Some(m) => match m.max {
                    None => legal.len(),
                    Some(max) => max as nat,
                },
            };
            let slots = effect_slots(g, ability, f);
            &&& slots is None <==> !ability.optional_targeting && legal.len() < least
            &&& slots is Some ==> slots->0.len() == most
            &&& slots is Some && 0 <= i < most ==> slots->0[i].legal_targets@ == legal && (
            slots->0[i].optional <==> ability.optional_targeting || i >= least)
        }),
{
    lemma_items_of(legal_targets(g, f, ability.source_id, ability.controller));
}

/// Targets settle themselves only where nobody has a choice: a slot that has to be filled takes
/// its one legal target, and one that need not be stays empty where there is none.
pub proof fn law_no_choice(
    slots: Seq<TargetSlot>,
    constraints: List<TargetSelectionConstraint>,
    i: int,
)
    requires
        0 <= i < slots.len(),
    ensures
        auto_choice(slots, constraints) matches TargetChoice::Settled(choices) ==> {
            &&& choices.len() == slots.len()
            &&& !slots[i].optional ==> slots[i].legal_targets@.len() == 1 && choices[i] == Some(
                slots[i].legal_targets@[0],
            )
            &&& slots[i].optional ==> slots[i].legal_targets@.len() == 0 && choices[i] is None
        },
        !slots[i].optional && slots[i].legal_targets@.len() == 0 ==> auto_choice(
            slots,
            constraints,
        ) is Impossible,
        (forall|k: int|
            0 <= k < slots.len() && !(#[trigger] slots[k]).optional
                ==> slots[k].legal_targets@.len() > 0) && (slots[i].legal_targets@.len() > 1 || (
        slots[i].optional && slots[i].legal_targets@.len() > 0)) ==> auto_choice(
            slots,
            constraints,
        ) is Open,
{
    let s = slots[i];
    assert(is_stuck(slots[i]) <==> !s.optional && s.legal_targets@.len() == 0);
    assert(is_open(slots[i]) <==> (s.optional && s.legal_targets@.len() > 0) || (!s.optional
        && s.legal_targets@.len() > 1));
    if exists|k: int| 0 <= k < slots.len() && is_stuck(#[trigger] slots[k]) {
        let k = choose|k: int| 0 <= k < slots.len() && is_stuck(#[trigger] slots[k]);
        assert(!slots[k].optional);
    }
}

/// Where targets have to differ, no two slots take the same one; where they need not, that is no
/// hindrance.
pub proof fn law_different_targets(
    slots: Seq<TargetSlot>,
    constraints: List<TargetSelectionConstraint>,
    i: int,
    j: int,
)
    ensures
        auto_choice(slots, constraints) matches TargetChoice::Settled(choices) ==> (
        constraints@.contains(TargetSelectionConstraint::DifferentTargets) && 0 <= i < j
            < choices.len() && choices[i] is Some ==> choices[i] != choices[j]),
        !constraints@.contains(TargetSelectionConstraint::DifferentTargets) && auto_choice(
            slots,
            constraints,
        ) is Impossible ==> exists|k: int|
            0 <= k < slots.len() && !(#[trigger] slots[k]).optional
                && slots[k].legal_targets@.len() == 0,
{
    if exists|k: int| 0 <= k < slots.len() && is_stuck(#[trigger] slots[k]) {
        let k = choose|k: int| 0 <= k < slots.len() && is_stuck(#[trigger] slots[k]);
        assert(!slots[k].optional);
    }
}

/// Chance goes on from number to number by a linear congruence modulo two to the sixty-fourth, and
/// each slot uses up one number.
pub proof fn law_random_numbers(state: u64, n: nat)
    ensures
        rng_next(state) as int == (state * 6364136223846793005 + 1442695040888963407)
            % 0x1_0000_0000_0000_0000,
        rng_after(state, 0) == state,
        rng_after(state, n + 1) == rng_next(rng_after(state, n)),
{
    let m: int = 0x1_0000_0000_0000_0000;
    let a = state as int * 6364136223846793005;
    let b: int = 1442695040888963407;
    vstd::arithmetic::div_mod::lemma_add_mod_noop_right(b, a, m);
}

/// Chance gives each slot one of its legal targets.
pub proof fn law_chance(
    g: Game,
    slots: Seq<TargetSlot>,
    constraints: List<TargetSelectionConstraint>,
    i: int,
)
    requires
        0 <= i < slots.len(),
        slots[i].legal_targets@.len() <= usize::MAX,
    ensures
        random_choice(g, slots, constraints) matches TargetChoice::Settled(choices) ==> {
            &&& choices.len() == slots.len()
            &&& slots[i].legal_targets@.len() > 0 ==> choices[i] is Some
                && slots[i].legal_targets@.contains(choices[i]->0)
            &&& slots[i].legal_targets@.len() == 0 ==> choices[i] is None && slots[i].optional
        },
        random_choice(g, slots, constraints) !is Open,
        !slots[i].optional && slots[i].legal_targets@.len() == 0 ==> random_choice(
            g,
            slots,
            constraints,
        ) is Impossible,
{
    let legal = slots[i].legal_targets@;
    let number = rng_after(g.rng_state, (i + 1) as nat);
    assert(is_stuck(slots[i]) <==> !slots[i].optional && legal.len() == 0);
    if legal.len() > 0 {
        let n = legal.len() as int;
        let at = (number as int / 4294967296) % n;
        assert(0 <= at < n) by (nonlinear_arith)
            requires
                n > 0,
                at == (number as int / 4294967296) % n,
        ;
        assert(legal.contains(legal[at]));
        assert(random_target(slots[i], number) == Some(legal[at]));
    }
}

/// An ability with one slot and nothing that follows it takes the target chosen for it, and
/// nothing else of it changes.
pub proof fn law_target_taken(g: Game, ability: ResolvedAbility, choice: Option<TargetRef>)
    requires
        ability.sub_ability is None,
        own_slots(g, ability, false) is Some,
        own_slots(g, ability, false)->0.len() == 1,
    ensures
        ({
            let r = with_targets(g, ability, false, seq![choice], 0);
            &&& choice is Some ==> r.targets@ == seq![choice->0]
            &&& choice is None ==> r.targets@.len() == 0
            &&& r == (ResolvedAbility { targets: r.targets, ..ability })
        }),
{
    let choices = seq![choice];
    reveal_with_fuel(picked, 2);
    assert(slots_end(g, ability, false, choices, 0) == 1);
    lemma_items_of(picked(choices, 0, 1));
    if choice is Some {
        assert(picked(choices, 0, 1) =~= seq![choice->0]);
    }
}

/// The slots of a chain of abilities are those of each of them, in the order of the chain; what
/// follows a revealed hand has none, for it acts on the card revealed. Where one of them has too
/// few targets, the chain has none.
pub proof fn law_chain_slots(g: Game, ability: ResolvedAbility, after_reveal: bool)
    ensures
        after_reveal ==> own_slots(g, ability, after_reveal) == Some(Seq::<TargetSlot>::empty()),
        !after_reveal && effect_targets(*ability.effect) is None ==> own_slots(
            g,
            ability,
            after_reveal,
        ) == Some(Seq::<TargetSlot>::empty()),
        !after_reveal && effect_targets(*ability.effect) is Some ==> own_slots(
            g,
            ability,
            after_reveal,
        ) == effect_slots(g, ability, effect_targets(*ability.effect)->0),
        ability.sub_ability is None ==> chain_slots(g, ability, after_reveal) == own_slots(
            g,
            ability,
            after_reveal,
        ),
        ability.sub_ability is Some ==> {
            let rest = chain_slots(g, *ability.sub_ability->0, *ability.effect is RevealHand);
            let own = own_slots(g, ability, after_reveal);
            &&& own is Some && rest is Some ==> chain_slots(g, ability, after_reveal) == Some(
                own->0 + rest->0,
            )
            &&& own is None || rest is None ==> chain_slots(g, ability, after_reveal) is None
        },
{
    if own_slots(g, ability, after_reveal) is Some {
        let own = own_slots(g, ability, after_reveal)->0;
        assert(own + Seq::<TargetSlot>::empty() =~= own);
    }
}

/// Where two abilities of a chain take one target each, the first takes the first choice and the
/// second the second.
pub proof fn law_each_its_own(
    g: Game,
    ability: ResolvedAbility,
    first: TargetRef,
    second: TargetRef,
)
    requires
        ability.sub_ability is Some,
        ability.sub_ability->0.sub_ability is None,
        own_slots(g, ability, false) is Some,
        own_slots(g, ability, false)->0.len() == 1,
        own_slots(g, *ability.sub_ability->0, *ability.effect is RevealHand) is Some,
        own_slots(g, *ability.sub_ability->0, *ability.effect is RevealHand)->0.len() == 1,
    ensures
        ({
            let r = with_targets(g, ability, false, seq![Some(first), Some(second)], 0);
            &&& r.targets@ == seq![first]
            &&& r.sub_ability is Some
            &&& r.sub_ability->0.targets@ == seq![second]
            &&& r.effect == ability.effect
            &&& r.sub_ability->0.effect == ability.sub_ability->0.effect
        }),
{
    let choices = seq![Some(first), Some(second)];
    let sub = *ability.sub_ability->0;
    reveal_with_fuel(picked, 3);
    reveal_with_fuel(with_targets, 2);
    assert(slots_end(g, ability, false, choices, 0) == 1);
    assert(slots_end(g, sub, *ability.effect is RevealHand, choices, 1) == 2);
    assert(picked(choices, 0, 1) =~= seq![first]);
    assert(picked(choices, 1, 2) =~= seq![second]);
    lemma_items_of(seq![first]);
    lemma_items_of(seq![second]);
}

/// A trigger goes on top of the stack under a new number, with its source, its controller, its
/// ability and what set it off. Nothing below it changes (CR 603.3).
pub proof fn law_on_the_stack(g: Game, trigger: PendingTrigger, events: List<GameEvent>)
    ensures
        ({
            let r = pushed(g, trigger, events);
            let top = r.stack.last();
            &&& r.stack.len() == g.stack.len() + 1
            &&& r.stack.drop_last() == g.stack
            &&& top.id == ObjectId(g.next_object_id)
            &&& top.source_id == trigger.source_id
            &&& top.controller == trigger.controller
            &&& top.kind is TriggeredAbility
            &&& trigger.may_trigger_origin is None ==> top.kind->TriggeredAbility_ability
                == trigger.ability
            &&& trigger.may_trigger_origin is Some ==> {
                let ability = top.kind->TriggeredAbility_ability;
                &&& ability.may_trigger_origin == trigger.may_trigger_origin
                &&& ability.effect == trigger.ability.effect
                &&& ability.targets == trigger.ability.targets
                &&& ability.controller == trigger.ability.controller
                &&& ability.source_id == trigger.ability.source_id
                &&& ability.optional == trigger.ability.optional
                &&& ability.ability_index == trigger.ability.ability_index
                &&& ability.sub_ability is Some <==> trigger.ability.sub_ability is Some
                &&& ability.sub_ability is Some ==> ability.sub_ability->0.may_trigger_origin
                    == trigger.may_trigger_origin && ability.sub_ability->0.effect
                    == trigger.ability.sub_ability->0.effect
            }
            &&& top.kind->condition == trigger.condition
            &&& top.kind->trigger_event == trigger.trigger_event
            &&& top.kind->description == trigger.description
            &&& r.objects == g.objects && r.players == g.players && r.battlefield == g.battlefield
            &&& r.waiting_for == g.waiting_for
            &&& events@.len() > 1 ==> r.stack_trigger_event_batches.contains_key(top.id)
                && r.stack_trigger_event_batches[top.id] == events
            &&& events@.len() <= 1 ==> r.stack_trigger_event_batches
                == g.stack_trigger_event_batches
        }),
{
    reveal(pushed);
    reveal_with_fuel(ResolvedAbility::with_may_trigger_origin, 2);
    assert(pushed(g, trigger, events).stack.drop_last() =~= g.stack);
}

/// CR 603.3c, CR 700.2b: a modal trigger waits, off the stack, for its modes to be chosen, and what
/// comes behind it waits too.
pub proof fn law_modal_waits(g: Game, context: PendingTriggerContext)
    requires
        context.pending.modal is Some,
        context.pending.mode_abilities is Some,
        context.pending.mode_abilities->0@.len() > 0,
    ensures
        one_placed(g, context).stopped,
        one_placed(g, context).game == (Game {
            pending_trigger: Some(context.pending),
            pending_trigger_event_batch: context.trigger_events,
            ..g
        }),
{
    reveal(one_placed);
}

/// CR 603.3d: a trigger that has no legal target is dropped: nothing changes.
pub proof fn law_no_legal_target(g: Game, context: PendingTriggerContext, f: TargetFilter)
    requires
        context.pending.modal is None,
        context.pending.ability.multi_target is None,
        !context.pending.ability.optional_targeting,
        effect_targets(*context.pending.ability.effect) == Some(f),
        legal_targets(
            g,
            f,
            context.pending.ability.source_id,
            context.pending.ability.controller,
        ).len() == 0,
    ensures
        one_placed(g, context).game == g,
        !one_placed(g, context).stopped,
{
    reveal(one_placed);
    let ability = context.pending.ability;
    law_slots(g, ability, f, 0);
    assert(chain_slots(g, ability, false) is None);
}

/// Whether a trigger takes just one target, which it must take, and has nothing else that follows.
pub open spec fn takes_one_target(trigger: PendingTrigger, f: TargetFilter) -> bool {
    &&& trigger.modal is None
    &&& trigger.ability.sub_ability is None
    &&& trigger.ability.multi_target is None
    &&& !trigger.ability.optional_targeting
    &&& effect_targets(*trigger.ability.effect) == Some(f)
    &&& trigger.ability.target_selection_mode != TargetSelectionMode::Random
    &&& trigger.may_trigger_origin is None
}

proof fn lemma_one_slot(g: Game, trigger: PendingTrigger, f: TargetFilter)
    requires
        takes_one_target(trigger, f),
        legal_targets(g, f, trigger.ability.source_id, trigger.ability.controller).len() > 0,
    ensures
        ({
            let legal = legal_targets(
                g,
                f,
                trigger.ability.source_id,
                trigger.ability.controller,
            );
            let slots = chain_slots(g, trigger.ability, false);
            &&& slots is Some
            &&& slots->0.len() == 1
            &&& slots->0[0].legal_targets@ == legal
            &&& !slots->0[0].optional
            &&& own_slots(g, trigger.ability, false) == slots
        }),
{
    law_slots(g, trigger.ability, f, 0);
    let own = own_slots(g, trigger.ability, false)->0;
    assert(own + seq![] =~= own);
}

/// CR 603.3d: a trigger that must take one target takes the only one there is and goes on the
/// stack with it.
pub proof fn law_only_target(
    g: Game,
    context: PendingTriggerContext,
    f: TargetFilter,
    target: TargetRef,
)
    requires
        takes_one_target(context.pending, f),
        context.pending.distribute is None,
        legal_targets(
            g,
            f,
            context.pending.ability.source_id,
            context.pending.ability.controller,
        ) == seq![target],
    ensures
        ({
            let r = one_placed(g, context);
            let top = r.game.stack.last();
            &&& !r.stopped
            &&& r.game.stack.len() == g.stack.len() + 1
            &&& r.game.stack.drop_last() == g.stack
            &&& top.controller == context.pending.controller
            &&& top.source_id == context.pending.source_id
            &&& top.kind is TriggeredAbility
            &&& top.kind->TriggeredAbility_ability.targets@ == seq![target]
            &&& top.kind->TriggeredAbility_ability.effect == context.pending.ability.effect
        }),
{
    reveal(one_placed);
    let trigger = context.pending;
    lemma_one_slot(g, trigger, f);
    let slots = chain_slots(g, trigger.ability, false)->0;
    let choices = Seq::new(slots.len(), |i: int| only_target(slots[i]));
    assert(choices =~= seq![Some(target)]);
    assert(!is_stuck(slots[0]) && !is_open(slots[0]));
    assert(!repeats(choices));
    assert(auto_choice(slots, trigger.target_constraints) == TargetChoice::Settled(choices));
    law_target_taken(g, trigger.ability, Some(target));
    let aimed = with_targets(g, trigger.ability, false, choices, 0);
    law_on_the_stack(g, PendingTrigger { ability: aimed, ..trigger }, context.trigger_events);
}

/// CR 603.3d: a trigger that has more than one legal target waits, off the stack, for its
/// controller to choose.
pub proof fn law_target_chosen(g: Game, context: PendingTriggerContext, f: TargetFilter)
    requires
        takes_one_target(context.pending, f),
        legal_targets(
            g,
            f,
            context.pending.ability.source_id,
            context.pending.ability.controller,
        ).len() > 1,
    ensures
        one_placed(g, context).stopped,
        one_placed(g, context).game == (Game {
            pending_trigger: Some(context.pending),
            pending_trigger_event_batch: context.trigger_events,
            ..g
        }),
{
    reveal(one_placed);
    lemma_one_slot(g, context.pending, f);
    let slots = chain_slots(g, context.pending.ability, false)->0;
    assert(is_open(slots[0]) && !is_stuck(slots[0]));
    assert(auto_choice(slots, context.pending.target_constraints) is Open);
}

/// CR 605.4a: a trigger without targets that makes mana as mana is made resolves at once; any other
/// goes on the stack.
pub proof fn law_mana_at_once(g: Game, context: PendingTriggerContext)
    requires
        context.pending.modal is None,
        chain_slots(g, context.pending.ability, false) == Some(Seq::<TargetSlot>::empty()),
    ensures
        ({
            let trigger = context.pending;
            let makes_mana = *trigger.ability.effect is Mana && trigger.trigger_event is Some
                && trigger.trigger_event->0 is ManaAdded;
            &&& makes_mana ==> one_placed(g, context).game == mana_made(
                g,
                trigger.ability,
                trigger.trigger_event,
            ) && one_placed(g, context).game.stack == g.stack
            &&& !makes_mana ==> one_placed(g, context).game == pushed(
                g,
                trigger,
                context.trigger_events,
            )
            &&& !one_placed(g, context).stopped
        }),
{
    reveal(one_placed);
}

/// CR 601.2d: what is divided among targets goes to the only one there is; among several, the
/// controller divides it first, and the trigger waits for that off the stack.
pub proof fn law_divided(
    g: Game,
    trigger: PendingTrigger,
    ability: ResolvedAbility,
    events: List<GameEvent>,
)
    requires
        trigger.distribute is Some,
        fixed_total(*ability.effect) is Some,
        trigger.may_trigger_origin is None,
    ensures
        ({
            let r = targeted_placed(g, trigger, ability, events);
            let total = fixed_total(*ability.effect)->0;
            let targets = all_targets(ability);
            &&& targets.len() == 1 ==> {
                let top = r.game.stack.last();
                &&& !r.stopped
                &&& r.game.stack.drop_last() == g.stack
                &&& top.kind is TriggeredAbility
                &&& top.kind->TriggeredAbility_ability.distribution is Some
                &&& top.kind->TriggeredAbility_ability.distribution->0@ == seq![
                    (targets[0], total),
                ]
            }
            &&& targets.len() != 1 ==> {
                &&& r.stopped
                &&& r.game.stack == g.stack
                &&& r.game.waiting_for is DistributeAmong
                &&& r.game.waiting_for->DistributeAmong_player == trigger.controller
                &&& r.game.waiting_for->total == total
                &&& r.game.waiting_for->targets@ == targets
                &&& r.game.pending_trigger is Some
                &&& r.game.pending_trigger->0.ability == ability
            }
        }),
{
    let effect = *ability.effect;
    let total = fixed_total(effect)->0;
    let targets = all_targets(ability);
    lemma_items_of(targets);
    if targets.len() == 1 {
        let share = seq![(targets[0], total)];
        lemma_items_of(share);
        let given = PendingTrigger {
            ability: ResolvedAbility { distribution: Some(list_of(share)), ..ability },
            ..trigger
        };
        law_on_the_stack(g, given, events);
    }
}

/// What is divided is the damage or the counters, where that is a fixed number.
pub proof fn law_total(value: i32, effect: Effect)
    ensures
        effect is DealDamage && effect->DealDamage_amount == (QuantityExpr::Fixed { value })
            && value >= 0 ==> fixed_total(effect) == Some(value as u32),
        effect is PutCounter && effect->PutCounter_count == (QuantityExpr::Fixed { value })
            && value >= 0 ==> fixed_total(effect) == Some(value as u32),
        !(effect is DealDamage) && !(effect is PutCounter) ==> fixed_total(effect) is None,
{
}

/// The triggers are placed one after the other, until one waits for a decision.
pub proof fn law_one_after_another(g: Game, order: Seq<PendingTriggerContext>, n: nat)
    requires
        n < order.len(),
    ensures
        placed(g, order, 0).game == g && !placed(g, order, 0).stopped,
        placed(g, order, n).stopped ==> placed(g, order, n + 1) == placed(g, order, n),
        !placed(g, order, n).stopped ==> placed(g, order, n + 1) == one_placed(
            placed(g, order, n).game,
            order[n as int],
        ),
{
}

/// Mana is of the color asked for.
pub proof fn law_mana_colors(a: ManaColor, b: ManaColor)
    ensures
        mana_of(ManaColor::White) == ManaType::White,
        mana_of(ManaColor::Blue) == ManaType::Blue,
        mana_of(ManaColor::Black) == ManaType::Black,
        mana_of(ManaColor::Red) == ManaType::Red,
        mana_of(ManaColor::Green) == ManaType::Green,
        mana_of(a) == mana_of(b) ==> a == b,
{
}

/// A mana ability adds its mana to one pool: its controller's, or that of the player whom the event
/// is about where it says so. No other seat changes.
pub proof fn law_mana_added(
    g: Game,
    ability: ResolvedAbility,
    event: GameEvent,
    seat: int,
    i: int,
)
    requires
        *ability.effect is Mana,
        event is ManaAdded,
        0 <= seat < g.players.len(),
        g.players[seat].id == (if ability.player_scope == Some(PlayerFilter::TriggeringPlayer) {
            event->ManaAdded_player_id
        } else {
            ability.controller
        }),
        forall|k: int| 0 <= k < seat ==> (#[trigger] g.players[k]).id != g.players[seat].id,
    ensures
        ({
            let r = mana_made(g, ability, Some(event));
            let player = g.players[seat].id;
            let types = produced_mana(
                g,
                ability.effect->produced,
                ability.source_id,
                player,
                Some(event),
            );
            let had = g.players[seat].mana_pool@;
            let has = r.players[seat].mana_pool@;
            &&& r.players.len() == g.players.len()
            &&& has.len() == had.len() + types.len()
            &&& has.take(had.len() as int) == had
            &&& 0 <= i < types.len() ==> has[had.len() + i].mana_type == types[i] && has[had.len()
                + i].source_id == ability.source_id
            &&& 0 <= i < g.players.len() && i != seat ==> r.players[i] == g.players[i]
            &&& r.stack == g.stack && r.battlefield == g.battlefield
        }),
{
    let player = g.players[seat].id;
    lemma_first_seat(g.players, player, 0);
    assert(mana_recipient(ability, Some(event)) == player);
    if let Effect::Mana { produced, expiry, .. } = *ability.effect {
        let types = produced_mana(g, produced, ability.source_id, player, Some(event));
        let had = g.players[seat].mana_pool@;
        let units = mana_units(types, ability.source_id, expiry);
        lemma_items_of(had + units);
        assert((had + units).take(had.len() as int) =~= had);
    }
}

/// Mana of one color comes as often as the number says, all of the first color there is to choose
/// from; fixed mana is just what is written.
pub proof fn law_mana_produced(
    g: Game,
    produced: ManaProduction,
    source: ObjectId,
    controller: PlayerId,
    event: Option<GameEvent>,
    i: int,
)
    ensures
        ({
            let r = produced_mana(g, produced, source, controller, event);
            match produced {
                ManaProduction::Fixed { colors, .. } => r.len() == colors@.len() && (0 <= i
                    < r.len() ==> r[i] == mana_of(colors@[i])),
                ManaProduction::AnyOneColor { count, color_options, .. } => {
                    let n = quantity(g, count, controller, source, event);
                    &&& color_options@.len() == 0 ==> r.len() == 0
                    &&& color_options@.len() > 0 && 0 <= n <= u32::MAX ==> r.len() == n
                    &&& color_options@.len() > 0 && 0 <= i < r.len() ==> r[i] == mana_of(
                        color_options@[0],
                    )
                },
                ManaProduction::ChosenColor { .. } => !g.objects.contains_key(source) ==> r.len()
                    == 0,
            }
        }),
{
}

} // verus!
