//! Continuous effects (CR 613): what static abilities and lasting effects make of the permanents.

use crate::ability::{
    ContinuousModification, Keyword, StaticDefinition, StaticMode, TriggerDefinition,
};
use crate::effects::ring::{bearer_of, ring_bearer_for};
use crate::filter::{
    any_reads, matches_target_filter, object_matches, reads_among, source_context, FilterContext,
};
use crate::functioning::{is_static_active, static_applies};
use crate::ids::{CounterType, ObjectId, Supertype};
use crate::list::{list_of, List};
use crate::object::{CardType, ChosenAttribute, GameObject};
use crate::state::{same_scene, Game, GameState};
use crate::text::Text;
use vstd::prelude::*;

verus! {

/// A sum that stays within the range of `i32`.
pub open spec fn clamped(n: int) -> i32 {
    if n < i32::MIN {
        i32::MIN
    } else if n > i32::MAX {
        i32::MAX
    } else {
        n as i32
    }
}

pub fn clamp(n: i64) -> (r: i32)
    ensures
        r == clamped(n as int),
{
    if n < i32::MIN as i64 {
        i32::MIN
    } else if n > i32::MAX as i64 {
        i32::MAX
    } else {
        n as i32
    }
}

/// An object with its characteristics before continuous effects, as they were first seen.
pub open spec fn unlayered(o: GameObject) -> GameObject {
    if o.base_recorded {
        GameObject {
            power: o.base_power,
            toughness: o.base_toughness,
            card_types: o.base_card_types,
            keywords: o.base_keywords,
            trigger_definitions: o.base_trigger_definitions,
            ..o
        }
    } else {
        GameObject {
            base_recorded: true,
            base_power: o.power,
            base_toughness: o.toughness,
            base_card_types: o.card_types,
            base_keywords: o.keywords,
            base_trigger_definitions: o.trigger_definitions,
            ..o
        }
    }
}

/// The game with the first `n` permanents as they are before continuous effects.
pub open spec fn reset(g: Game, n: nat) -> Game
    decreases n,
{
    if n == 0 {
        g
    } else {
        let before = reset(g, (n - 1) as nat);
        let id = g.battlefield[n - 1];
        match before.object(id) {
            None => before,
            Some(o) => before.set_object(id, unlayered(o)),
        }
    }
}

fn reset_object(o: &mut GameObject)
    ensures
        *final(o) == unlayered(*old(o)),
{
    if o.base_recorded {
        o.power = o.base_power;
        o.toughness = o.base_toughness;
        o.card_types = o.base_card_types.clone();
        o.keywords = o.base_keywords.clone();
        o.trigger_definitions = o.base_trigger_definitions.clone();
    } else {
        o.base_recorded = true;
        o.base_power = o.power;
        o.base_toughness = o.toughness;
        o.base_card_types = o.card_types.clone();
        o.base_keywords = o.keywords.clone();
        o.base_trigger_definitions = o.trigger_definitions.clone();
    }
}

fn reset_permanents(state: &mut GameState)
    ensures
        final(state)@ == reset(old(state)@, old(state)@.battlefield.len()),
{
    let mut i: usize = 0;
    while i < state.battlefield.len()
        invariant
            i <= state.battlefield@.len(),
            state@.battlefield == old(state)@.battlefield,
            state@ == reset(old(state)@, i as nat),
        decreases state.battlefield@.len() - i,
    {
        let id = state.battlefield[i];
        if let Some(o) = state.objects.get_mut(&id) {
            reset_object(o);
        }
        i = i + 1;
    }
}

/// Whether a static ability of `source` affects an object. Without a filter it affects its own
/// source.
pub open spec fn static_affects(
    g: Game,
    source: GameObject,
    def: StaticDefinition,
    id: ObjectId,
) -> bool {
    &&& def.mode is Continuous
    &&& static_applies(g, source, def)
    &&& match def.affected {
        None => id == source.id,
        Some(f) => object_matches(g, id, f, source_context(g, source.id)),
    }
}

fn check_static_affects(
    state: &GameState,
    source: &GameObject,
    def: &StaticDefinition,
    id: ObjectId,
) -> (r: bool)
    ensures
        r == static_affects(state@, *source, *def, id),
{
    (match &def.mode {
        StaticMode::Continuous => true,
        _ => false,
    }) && is_static_active(state, source, def) && match &def.affected {
        None => id == source.id,
        Some(f) => matches_target_filter(
            state,
            id,
            f,
            &FilterContext::from_source(state, source.id),
        ),
    }
}

/// The creature type chosen for an object, where one was.
pub open spec fn chosen_type(attributes: List<ChosenAttribute>) -> Option<Text>
    decreases attributes,
{
    match attributes.node {
        None => None,
        Some(n) => match *n.item {
            ChosenAttribute::CreatureType(t) => Some(t),
            _ => chosen_type(n.rest),
        },
    }
}

fn find_chosen_type(attributes: &List<ChosenAttribute>) -> (r: Option<Text>)
    ensures
        r == chosen_type(*attributes),
    decreases attributes,
{
    match &attributes.node {
        None => None,
        Some(n) => match &*n.item {
            ChosenAttribute::CreatureType(t) => Some(t.clone()),
            _ => find_chosen_type(&n.rest),
        },
    }
}

/// Subtypes with one more, unless it is there.
pub open spec fn with_subtype(subtypes: List<Text>, t: Text) -> List<Text> {
    if reads_among(subtypes, t@) {
        subtypes
    } else {
        list_of(subtypes@.push(t))
    }
}

/// What the modifications of an effect add to a type line.
pub open spec fn types_modified(
    subtypes: List<Text>,
    mods: List<ContinuousModification>,
    chosen: Option<Text>,
) -> List<Text>
    decreases mods,
{
    match mods.node {
        None => subtypes,
        Some(n) => {
            let next = match (*n.item, chosen) {
                (ContinuousModification::AddChosenCreatureType, Some(t)) => with_subtype(
                    subtypes,
                    t,
                ),
                _ => subtypes,
            };
            types_modified(next, n.rest, chosen)
        },
    }
}

fn modify_types(
    subtypes: List<Text>,
    mods: &List<ContinuousModification>,
    chosen: &Option<Text>,
) -> (r: List<Text>)
    ensures
        r == types_modified(subtypes, *mods, *chosen),
    decreases mods,
{
    match &mods.node {
        None => subtypes,
        Some(n) => {
            let next = match (&*n.item, chosen) {
                (ContinuousModification::AddChosenCreatureType, Some(t)) => if any_reads(
                    &subtypes,
                    t,
                ) {
                    subtypes
                } else {
                    subtypes.with(t.clone())
                },
                _ => subtypes,
            };
            modify_types(next, &n.rest, chosen)
        },
    }
}

/// What the static abilities of one permanent add to the type line of an object.
pub open spec fn types_by_statics(
    g: Game,
    source: GameObject,
    defs: List<StaticDefinition>,
    id: ObjectId,
    subtypes: List<Text>,
) -> List<Text>
    decreases defs,
{
    match defs.node {
        None => subtypes,
        Some(n) => {
            let next = if static_affects(g, source, *n.item, id) {
                types_modified(
                    subtypes,
                    n.item.modifications,
                    chosen_type(source.chosen_attributes),
                )
            } else {
                subtypes
            };
            types_by_statics(g, source, n.rest, id, next)
        },
    }
}

fn apply_types_by_statics(
    state: &GameState,
    source: &GameObject,
    defs: &List<StaticDefinition>,
    id: ObjectId,
    subtypes: List<Text>,
) -> (r: List<Text>)
    ensures
        r == types_by_statics(state@, *source, *defs, id, subtypes),
    decreases defs,
{
    match &defs.node {
        None => subtypes,
        Some(n) => {
            let next = if check_static_affects(state, source, &n.item, id) {
                modify_types(
                    subtypes,
                    &n.item.modifications,
                    &find_chosen_type(&source.chosen_attributes),
                )
            } else {
                subtypes
            };
            apply_types_by_statics(state, source, &n.rest, id, next)
        },
    }
}

/// The subtypes of an object once the first `n` permanents have had their say.
pub open spec fn subtypes_of(g: Game, id: ObjectId, subtypes: List<Text>, n: nat) -> List<Text>
    decreases n,
{
    if n == 0 {
        subtypes
    } else {
        let before = subtypes_of(g, id, subtypes, (n - 1) as nat);
        match g.object(g.battlefield[n - 1]) {
            None => before,
            Some(source) => types_by_statics(g, source, source.static_definitions, id, before),
        }
    }
}

/// The type line of an object after the effects that change types, with the supertype that the
/// Ring gives its bearer (CR 701.54c).
pub open spec fn layered_types(g: Game, o: GameObject, id: ObjectId) -> CardType {
    CardType {
        subtypes: subtypes_of(g, id, o.card_types.subtypes, g.battlefield.len()),
        supertypes: if bearer_of(g, o.controller) == Some(id)
            && !o.card_types.supertypes@.contains(Supertype::Legendary) {
            list_of(o.card_types.supertypes@.push(Supertype::Legendary))
        } else {
            o.card_types.supertypes
        },
        ..o.card_types
    }
}

fn layer_types(state: &GameState, o: &GameObject, id: ObjectId) -> (r: CardType)
    ensures
        r == layered_types(state@, *o, id),
{
    let mut subtypes = o.card_types.subtypes.clone();
    let mut i: usize = 0;
    while i < state.battlefield.len()
        invariant
            i <= state.battlefield@.len(),
            subtypes == subtypes_of(state@, id, o.card_types.subtypes, i as nat),
        decreases state.battlefield@.len() - i,
    {
        if let Some(source) = state.objects.get(&state.battlefield[i]) {
            subtypes =
            apply_types_by_statics(state, source, &source.static_definitions, id, subtypes);
        }
        i = i + 1;
    }
    let supertypes = if ring_bearer_for(state, o.controller) == Some(id)
        && !o.card_types.supertypes.contains(&Supertype::Legendary) {
        o.card_types.supertypes.with(Supertype::Legendary)
    } else {
        o.card_types.supertypes.clone()
    };
    CardType { subtypes, supertypes, core_types: o.card_types.core_types.clone() }
}

/// The game with the type lines of the first `n` permanents settled, as `before` has it.
pub open spec fn types_settled(before: Game, n: nat) -> Game
    decreases n,
{
    if n == 0 {
        before
    } else {
        let g = types_settled(before, (n - 1) as nat);
        let id = before.battlefield[n - 1];
        match (before.object(id), g.object(id)) {
            (Some(b), Some(o)) => g.set_object(
                id,
                GameObject { card_types: layered_types(before, b, id), ..o },
            ),
            _ => g,
        }
    }
}

fn write_types(o: &mut GameObject, line: &CardType)
    ensures
        *final(o) == (GameObject { card_types: *line, ..*old(o) }),
{
    o.card_types = line.clone();
}

fn settle_types(state: &mut GameState)
    ensures
        final(state)@ == types_settled(old(state)@, old(state)@.battlefield.len()),
{
    let mut types: Vec<Option<CardType>> = Vec::new();
    let mut i: usize = 0;
    while i < state.battlefield.len()
        invariant
            i <= state.battlefield@.len(),
            *state == *old(state),
            types@.len() == i,
            forall|j: int|
                0 <= j < i ==> #[trigger] types@[j] == (match state@.object(
                    state@.battlefield[j],
                ) {
                    None => None,
                    Some(o) => Some(layered_types(state@, o, state@.battlefield[j])),
                }),
        decreases state.battlefield@.len() - i,
    {
        let id = state.battlefield[i];
        types.push(
            match state.objects.get(&id) {
                None => None,
                Some(o) => Some(layer_types(state, o, id)),
            },
        );
        i = i + 1;
    }
    let mut k: usize = 0;
    while k < state.battlefield.len()
        invariant
            k <= state.battlefield@.len(),
            types@.len() == state.battlefield@.len(),
            state@.battlefield == old(state)@.battlefield,
            state@ == types_settled(old(state)@, k as nat),
            forall|j: int|
                0 <= j < types@.len() ==> #[trigger] types@[j] == (match old(state)@.object(
                    old(state)@.battlefield[j],
                ) {
                    None => None,
                    Some(o) => Some(layered_types(old(state)@, o, old(state)@.battlefield[j])),
                }),
        decreases state.battlefield@.len() - k,
    {
        let id = state.battlefield[k];
        if let Some(line) = &types[k] {
            if let Some(o) = state.objects.get_mut(&id) {
                write_types(o, line);
            }
        }
        k = k + 1;
    }
}

/// What effects past the type line work on.
#[derive(Debug, PartialEq, Eq)]
pub struct Traits {
    pub power: Option<i32>,
    pub toughness: Option<i32>,
    pub keywords: List<Keyword>,
    pub triggers: List<TriggerDefinition>,
}

pub open spec fn raised(value: Option<i32>, by: int) -> Option<i32> {
    match value {
        None => None,
        Some(v) => Some(clamped(v + by)),
    }
}

fn raise(value: Option<i32>, by: i64) -> (r: Option<i32>)
    requires
        -0x1_0000_0000 <= by <= 0x1_0000_0000,
    ensures
        r == raised(value, by as int),
{
    match value {
        None => None,
        Some(v) => Some(clamp(v as i64 + by)),
    }
}

pub open spec fn traits_modified(t: Traits, mods: List<ContinuousModification>) -> Traits
    decreases mods,
{
    match mods.node {
        None => t,
        Some(n) => {
            let next = match *n.item {
                ContinuousModification::AddPower { value } => Traits {
                    power: raised(t.power, value as int),
                    ..t
                },
                ContinuousModification::AddToughness { value } => Traits {
                    toughness: raised(t.toughness, value as int),
                    ..t
                },
                ContinuousModification::AddKeyword { keyword } => Traits {
                    keywords: list_of(t.keywords@.push(*keyword)),
                    ..t
                },
                ContinuousModification::GrantTrigger { trigger } => Traits {
                    triggers: list_of(t.triggers@.push(*trigger)),
                    ..t
                },
                ContinuousModification::AddChosenCreatureType => t,
            };
            traits_modified(next, n.rest)
        },
    }
}

fn modify_traits(t: Traits, mods: &List<ContinuousModification>) -> (r: Traits)
    ensures
        r == traits_modified(t, *mods),
    decreases mods,
{
    match &mods.node {
        None => t,
        Some(n) => {
            let mut next = t;
            match &*n.item {
                ContinuousModification::AddPower { value } => {
                    next.power = raise(next.power, *value as i64);
                },
                ContinuousModification::AddToughness { value } => {
                    next.toughness = raise(next.toughness, *value as i64);
                },
                ContinuousModification::AddKeyword { keyword } => {
                    next.keywords = next.keywords.with_shared(keyword.clone());
                },
                ContinuousModification::GrantTrigger { trigger } => {
                    next.triggers = next.triggers.with_shared(trigger.clone());
                },
                ContinuousModification::AddChosenCreatureType => {},
            }
            modify_traits(next, &n.rest)
        },
    }
}

pub open spec fn traits_by_statics(
    g: Game,
    source: GameObject,
    defs: List<StaticDefinition>,
    id: ObjectId,
    t: Traits,
) -> Traits
    decreases defs,
{
    match defs.node {
        None => t,
        Some(n) => {
            let next = if static_affects(g, source, *n.item, id) {
                traits_modified(t, n.item.modifications)
            } else {
                t
            };
            traits_by_statics(g, source, n.rest, id, next)
        },
    }
}

fn apply_traits_by_statics(
    state: &GameState,
    source: &GameObject,
    defs: &List<StaticDefinition>,
    id: ObjectId,
    t: Traits,
) -> (r: Traits)
    ensures
        r == traits_by_statics(state@, *source, *defs, id, t),
    decreases defs,
{
    match &defs.node {
        None => t,
        Some(n) => {
            let next = if check_static_affects(state, source, &n.item, id) {
                modify_traits(t, &n.item.modifications)
            } else {
                t
            };
            apply_traits_by_statics(state, source, &n.rest, id, next)
        },
    }
}

/// What the static abilities of the first `n` permanents make of an object.
pub open spec fn traits_by_permanents(g: Game, id: ObjectId, t: Traits, n: nat) -> Traits
    decreases n,
{
    if n == 0 {
        t
    } else {
        let before = traits_by_permanents(g, id, t, (n - 1) as nat);
        match g.object(g.battlefield[n - 1]) {
            None => before,
            Some(source) => traits_by_statics(g, source, source.static_definitions, id, before),
        }
    }
}

/// What the first `n` lasting effects make of an object.
pub open spec fn traits_by_effects(g: Game, id: ObjectId, t: Traits, n: nat) -> Traits
    decreases n,
{
    if n == 0 {
        t
    } else {
        let before = traits_by_effects(g, id, t, (n - 1) as nat);
        let effect = g.transient_continuous_effects[n - 1];
        let ctx = FilterContext {
            source_id: effect.source_id,
            controller: Some(effect.controller),
            trigger_object: None,
        };
        if object_matches(g, id, effect.affected, ctx) {
            traits_modified(before, effect.modifications)
        } else {
            before
        }
    }
}

/// The traits of an object after all continuous effects and its counters (CR 613.4).
pub open spec fn layered_traits(g: Game, o: GameObject, id: ObjectId) -> Traits {
    let printed = Traits {
        power: o.power,
        toughness: o.toughness,
        keywords: o.keywords,
        triggers: o.trigger_definitions,
    };
    let t = traits_by_effects(
        g,
        id,
        traits_by_permanents(g, id, printed, g.battlefield.len()),
        g.transient_continuous_effects.len(),
    );
    let bonus = o.counters.count(CounterType::Plus1Plus1) - o.counters.count(
        CounterType::Minus1Minus1,
    );
    Traits { power: raised(t.power, bonus), toughness: raised(t.toughness, bonus), ..t }
}

fn layer_traits(state: &GameState, o: &GameObject, id: ObjectId) -> (r: Traits)
    ensures
        r == layered_traits(state@, *o, id),
{
    let mut t = Traits {
        power: o.power,
        toughness: o.toughness,
        keywords: o.keywords.clone(),
        triggers: o.trigger_definitions.clone(),
    };
    let ghost printed = t;
    let mut i: usize = 0;
    while i < state.battlefield.len()
        invariant
            i <= state.battlefield@.len(),
            t == traits_by_permanents(state@, id, printed, i as nat),
        decreases state.battlefield@.len() - i,
    {
        if let Some(source) = state.objects.get(&state.battlefield[i]) {
            t = apply_traits_by_statics(state, source, &source.static_definitions, id, t);
        }
        i = i + 1;
    }
    let ghost standing = t;
    let mut k: usize = 0;
    while k < state.transient_continuous_effects.len()
        invariant
            k <= state.transient_continuous_effects@.len(),
            t == traits_by_effects(state@, id, standing, k as nat),
        decreases state.transient_continuous_effects@.len() - k,
    {
        let effect = &state.transient_continuous_effects[k];
        let ctx = FilterContext::from_source_with_controller(effect.source_id, effect.controller);
        if matches_target_filter(state, id, &effect.affected, &ctx) {
            t = modify_traits(t, &effect.modifications);
        }
        k = k + 1;
    }
    let bonus: i64 = o.counters.get(CounterType::Plus1Plus1) as i64 - o.counters.get(
        CounterType::Minus1Minus1,
    ) as i64;
    t.power = raise(t.power, bonus);
    t.toughness = raise(t.toughness, bonus);
    t
}

pub open spec fn with_traits(o: GameObject, t: Traits) -> GameObject {
    GameObject {
        power: t.power,
        toughness: t.toughness,
        keywords: t.keywords,
        trigger_definitions: t.triggers,
        ..o
    }
}

fn write_traits(o: &mut GameObject, t: &Traits)
    ensures
        *final(o) == with_traits(*old(o), *t),
{
    o.power = t.power;
    o.toughness = t.toughness;
    o.keywords = t.keywords.clone();
    o.trigger_definitions = t.triggers.clone();
}

/// The game with the traits of the first `n` permanents settled, as `before` has it.
pub open spec fn traits_settled(before: Game, n: nat) -> Game
    decreases n,
{
    if n == 0 {
        before
    } else {
        let g = traits_settled(before, (n - 1) as nat);
        let id = before.battlefield[n - 1];
        match (before.object(id), g.object(id)) {
            (Some(b), Some(o)) => g.set_object(id, with_traits(o, layered_traits(before, b, id))),
            _ => g,
        }
    }
}

fn settle_traits(state: &mut GameState)
    ensures
        final(state)@ == traits_settled(old(state)@, old(state)@.battlefield.len()),
{
    let mut traits: Vec<Option<Traits>> = Vec::new();
    let mut i: usize = 0;
    while i < state.battlefield.len()
        invariant
            i <= state.battlefield@.len(),
            *state == *old(state),
            traits@.len() == i,
            forall|j: int|
                0 <= j < i ==> #[trigger] traits@[j] == (match state@.object(
                    state@.battlefield[j],
                ) {
                    None => None,
                    Some(o) => Some(layered_traits(state@, o, state@.battlefield[j])),
                }),
        decreases state.battlefield@.len() - i,
    {
        let id = state.battlefield[i];
        traits.push(
            match state.objects.get(&id) {
                None => None,
                Some(o) => Some(layer_traits(state, o, id)),
            },
        );
        i = i + 1;
    }
    let mut k: usize = 0;
    while k < state.battlefield.len()
        invariant
            k <= state.battlefield@.len(),
            traits@.len() == state.battlefield@.len(),
            state@.battlefield == old(state)@.battlefield,
            state@ == traits_settled(old(state)@, k as nat),
            forall|j: int|
                0 <= j < traits@.len() ==> #[trigger] traits@[j] == (match old(state)@.object(
                    old(state)@.battlefield[j],
                ) {
                    None => None,
                    Some(o) => Some(layered_traits(old(state)@, o, old(state)@.battlefield[j])),
                }),
        decreases state.battlefield@.len() - k,
    {
        let id = state.battlefield[k];
        if let Some(t) = &traits[k] {
            if let Some(o) = state.objects.get_mut(&id) {
                write_traits(o, t);
            }
        }
        k = k + 1;
    }
}

/// The game with every permanent as the continuous effects make it: from what it is before
/// them, first the effects that change types, then those that give abilities or change power
/// and toughness.
pub open spec fn layered(g: Game) -> Game {
    let n = g.battlefield.len();
    Game { layers_dirty: false, ..traits_settled(types_settled(reset(g, n), n), n) }
}

/// No layer moves a permanent or changes a player.
pub proof fn lemma_layers_keep_battlefield(g: Game, n: nat)
    ensures
        reset(g, n).battlefield == g.battlefield,
        types_settled(g, n).battlefield == g.battlefield,
        traits_settled(g, n).battlefield == g.battlefield,
        reset(g, n).players == g.players,
        types_settled(g, n).players == g.players,
        traits_settled(g, n).players == g.players,
        reset(g, n).combat == g.combat,
        types_settled(g, n).combat == g.combat,
        traits_settled(g, n).combat == g.combat,
        reset(g, n).stack == g.stack,
        types_settled(g, n).stack == g.stack,
        traits_settled(g, n).stack == g.stack,
        reset(g, n).active_player == g.active_player,
        types_settled(g, n).active_player == g.active_player,
        traits_settled(g, n).active_player == g.active_player,
    decreases n,
{
    if n > 0 {
        lemma_layers_keep_battlefield(g, (n - 1) as nat);
    }
}

/// Continuous effects move nothing, remove no one and leave the stack as it is.
pub proof fn law_layers_keep_table(g: Game)
    ensures
        same_scene(g, layered(g)),
{
    let n = g.battlefield.len();
    lemma_layers_keep_battlefield(g, n);
    lemma_layers_keep_battlefield(reset(g, n), n);
    lemma_layers_keep_battlefield(types_settled(reset(g, n), n), n);
}

pub fn evaluate_layers(state: &mut GameState)
    ensures
        final(state)@ == layered(old(state)@),
{
    proof {
        let n = state@.battlefield.len();
        lemma_layers_keep_battlefield(state@, n);
        lemma_layers_keep_battlefield(reset(state@, n), n);
    }
    reset_permanents(state);
    settle_types(state);
    settle_traits(state);
    state.layers_dirty = false;
}

} // verus!
