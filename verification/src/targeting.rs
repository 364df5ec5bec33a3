//! From printed abilities to abilities on the stack: what they can target, and what they do
//! target when nobody has a choice to make (CR 115, CR 603.3d).

use crate::ability::{
    AbilityDefinition, Effect, MultiTargetSpec, QuantityExpr, ResolvedAbility, SpellContext,
    TargetFilter, TargetSelectionConstraint,
};
use crate::filter::{
    matches_player, matches_target_filter, object_matches, player_matches, FilterContext,
};
use crate::functioning::{trigger_source_ids_for_zone, trigger_sources};
use crate::ids::{CoreType, KeywordKind, ObjectId, PlayerId, TargetRef, Zone};
use crate::list::{copy_rc, list_of, List, Same};
use crate::protection::{check_protection, has_protection};
use crate::state::{Game, GameState};
use crate::text::copy_text;
use std::rc::Rc;
use vstd::prelude::*;

verus! {

/// A printed ability as it goes on the stack, with no targets chosen yet.
pub open spec fn resolved_from(
    def: AbilityDefinition,
    source_id: ObjectId,
    controller: PlayerId,
) -> ResolvedAbility
    decreases def,
{
    ResolvedAbility {
        kind: def.kind,
        effect: def.effect,
        targets: list_of(seq![]),
        source_id,
        controller,
        sub_ability: match def.sub_ability {
            None => None,
            Some(sub) => Some(Rc::new(resolved_from(*sub, source_id, controller))),
        },
        description: def.description,
        condition: def.condition,
        duration: def.duration,
        optional: def.optional,
        optional_targeting: def.optional_targeting,
        multi_target: def.multi_target,
        target_selection_mode: def.target_selection_mode,
        distribution: None,
        context: SpellContext {
            additional_cost_paid: false,
            cast_from_zone: None,
            kickers_paid: list_of(seq![]),
        },
        unless_pay: None,
        scoped_player: None,
        player_scope: def.player_scope,
        may_trigger_origin: None,
        ability_index: None,
        repeat_for: def.repeat_for,
    }
}

pub fn build_resolved_from_def(
    def: &AbilityDefinition,
    source_id: ObjectId,
    controller: PlayerId,
) -> (r: ResolvedAbility)
    ensures
        r == resolved_from(*def, source_id, controller),
    decreases def,
{
    ResolvedAbility {
        kind: def.kind,
        effect: def.effect.clone(),
        targets: List::new(),
        source_id,
        controller,
        sub_ability: match &def.sub_ability {
            None => None,
            Some(sub) => Some(Rc::new(build_resolved_from_def(sub, source_id, controller))),
        },
        description: copy_text(&def.description),
        condition: def.condition,
        duration: def.duration,
        optional: def.optional,
        optional_targeting: def.optional_targeting,
        multi_target: def.multi_target,
        target_selection_mode: def.target_selection_mode,
        distribution: None,
        context: SpellContext {
            additional_cost_paid: false,
            cast_from_zone: None,
            kickers_paid: List::new(),
        },
        unless_pay: None,
        scoped_player: None,
        player_scope: def.player_scope,
        may_trigger_origin: None,
        ability_index: None,
        repeat_for: copy_rc(&def.repeat_for),
    }
}

pub open spec fn is_private(zone: Option<Zone>) -> bool {
    zone == Some(Zone::Hand) || zone == Some(Zone::Library)
}

fn names_private(zone: Option<Zone>) -> (r: bool)
    ensures
        r == is_private(zone),
{
    match zone {
        Some(z) => z == Zone::Hand || z == Zone::Library,
        None => false,
    }
}

/// The filter that the targets of an effect are drawn from. An effect without targets, or whose
/// objects are chosen or settled only as it resolves, has none.
pub open spec fn effect_targets(effect: Effect) -> Option<TargetFilter> {
    let chosen_later = match effect {
        Effect::Sacrifice { .. } => true,
        Effect::PairWith { .. } => true,
        Effect::ChangeZone { origin, target, .. } => is_private(origin) || (origin is None
            && is_private(target.in_zone())),
        Effect::PutAtLibraryPosition { target, .. } => is_private(target.in_zone()),
        _ => false,
    };
    if chosen_later {
        None
    } else {
        match effect.target_filter_spec() {
            Some(f) => if f.from_context() {
                None
            } else {
                Some(f)
            },
            None => None,
        }
    }
}

/// Extract the TargetFilter from an effect, if it has targeting requirements.
/// Returns None for effects with no targeting (Draw, GainLife, etc.) or
/// effects targeting self/controller (which don't need player selection).
///
/// CR 115.1: Only objects on the battlefield, stack, graveyard, exile, and
/// command zone can be targeted. Selections from private zones (hand, library)
/// are resolution-time choices, not targeting.
pub fn extract_target_filter_from_effect(effect: &Effect) -> (r: Option<&TargetFilter>)
    ensures
        match r {
            Some(f) => effect_targets(*effect) == Some(*f),
            None => effect_targets(*effect) is None,
        },
{
    match effect {
        // CR 701.21a: Sacrifice does not target.
        Effect::Sacrifice { .. } => {
            return None;
        },
        // CR 702.95a + CR 115.10a + CR 608.2d: Soulbond pair choices are not targets.
        Effect::PairWith { .. } => {
            return None;
        },
        // CR 115.1: ChangeZone from private zones uses resolution-time selection.
        Effect::ChangeZone { origin, target, .. } => {
            if names_private(*origin) {
                return None;
            }
            if origin.is_none() && names_private(target.extract_in_zone()) {
                return None;
            }
        },
        // CR 115.1 + CR 400.2: PutAtLibraryPosition from a private zone is a
        // resolution-time selection.
        Effect::PutAtLibraryPosition { target, .. } => {
            if names_private(target.extract_in_zone()) {
                return None;
            }
        },
        _ => {},
    }
    match effect.target_filter() {
        None => None,
        Some(f) => if f.is_context_ref() {
            None
        } else {
            Some(f)
        },
    }
}

/// One target that an ability takes.
#[derive(Debug, PartialEq, Eq)]
pub struct TargetSlot {
    pub legal_targets: List<TargetRef>,
    pub optional: bool,
}

#[derive(Clone, Copy, Debug, PartialEq, Eq, Structural)]
pub enum TargetingError {
    NoLegalTargets,
    RepeatedTarget,
}

/// Whether a filter speaks of players alone.
pub open spec fn names_players(f: TargetFilter) -> bool {
    match f {
        TargetFilter::Player => true,
        TargetFilter::Typed(typed) => typed.controller is Some && typed.type_filters@.len() == 0
            && typed.properties@.len() == 0,
        _ => false,
    }
}

fn speaks_of_players(f: &TargetFilter) -> (r: bool)
    ensures
        r == names_players(*f),
{
    match f {
        TargetFilter::Player => true,
        TargetFilter::Typed(typed) => typed.controller.is_some() && typed.type_filters.is_empty()
            && typed.properties.is_empty(),
        _ => false,
    }
}

/// Whether an object can be the target. "Any target" means a creature, a planeswalker or a
/// battle among the objects (CR 115.4). Nothing with shroud can be one (CR 702.18), nor what has
/// protection from the source (CR 702.16b).
pub open spec fn can_target(g: Game, id: ObjectId, f: TargetFilter, ctx: FilterContext) -> bool {
    &&& object_matches(g, id, f, ctx)
    &&& !has_protection(g, id, ctx.source_id)
    &&& g.object(id) matches Some(o) && !o.has(KeywordKind::Shroud) && (f is Any ==> o.is_type(
        CoreType::Creature,
    ) || o.is_type(CoreType::Planeswalker) || o.is_type(CoreType::Battle))
}

fn check_target(state: &GameState, id: ObjectId, f: &TargetFilter, ctx: &FilterContext) -> (r: bool)
    ensures
        r == can_target(state@, id, *f, *ctx),
{
    matches_target_filter(state, id, f, ctx) && !check_protection(state, id, ctx.source_id)
        && match state.objects.get(&id) {
        None => false,
        Some(o) => !o.has_keyword(KeywordKind::Shroud) && match f {
            TargetFilter::Any => o.has_core_type(CoreType::Creature) || o.has_core_type(
                CoreType::Planeswalker,
            ) || o.has_core_type(CoreType::Battle),
            _ => true,
        },
    }
}

/// Those of the first `n` candidates that can be the target.
pub open spec fn object_targets(
    g: Game,
    ids: Seq<ObjectId>,
    f: TargetFilter,
    ctx: FilterContext,
    n: nat,
) -> Seq<TargetRef>
    decreases n,
{
    if n == 0 {
        seq![]
    } else {
        let before = object_targets(g, ids, f, ctx, (n - 1) as nat);
        if can_target(g, ids[n - 1], f, ctx) {
            before.push(TargetRef::Object(ids[n - 1]))
        } else {
            before
        }
    }
}

/// Those of the first `n` players who can be the target.
pub open spec fn player_targets(g: Game, f: TargetFilter, ctx: FilterContext, n: nat) -> Seq<
    TargetRef,
>
    decreases n,
{
    if n == 0 {
        seq![]
    } else {
        let p = g.players[n - 1];
        let before = player_targets(g, f, ctx, (n - 1) as nat);
        if !p.is_eliminated && f !is Not && player_matches(p.id, f, ctx) {
            before.push(TargetRef::Player(p.id))
        } else {
            before
        }
    }
}

/// The zone whose objects a filter is about.
pub open spec fn target_zone(f: TargetFilter) -> Zone {
    match f.in_zone() {
        None => Zone::Battlefield,
        Some(zone) => zone,
    }
}

/// What an ability can target through a filter: objects first, then players in seat order.
pub open spec fn legal_targets(
    g: Game,
    f: TargetFilter,
    source_id: ObjectId,
    controller: PlayerId,
) -> Seq<TargetRef> {
    let ctx = FilterContext { source_id, controller: Some(controller), trigger_object: None };
    let ids = if names_players(f) || target_zone(f) == Zone::Command {
        seq![]
    } else {
        trigger_sources(g, target_zone(f))
    };
    object_targets(g, ids, f, ctx, ids.len()) + player_targets(g, f, ctx, g.players.len())
}

pub fn find_legal_targets(
    state: &GameState,
    f: &TargetFilter,
    source_id: ObjectId,
    controller: PlayerId,
) -> (r: Vec<TargetRef>)
    ensures
        r@ == legal_targets(state@, *f, source_id, controller),
{
    let ctx = FilterContext::from_source_with_controller(source_id, controller);
    let zone = match f.extract_in_zone() {
        None => Zone::Battlefield,
        Some(zone) => zone,
    };
    let ids: Vec<ObjectId> = if speaks_of_players(f) || zone == Zone::Command {
        Vec::new()
    } else {
        trigger_source_ids_for_zone(state, zone)
    };
    let mut out: Vec<TargetRef> = Vec::new();
    let mut i: usize = 0;
    while i < ids.len()
        invariant
            i <= ids@.len(),
            out@ == object_targets(state@, ids@, *f, ctx, i as nat),
        decreases ids@.len() - i,
    {
        if check_target(state, ids[i], f, &ctx) {
            out.push(TargetRef::Object(ids[i]));
        }
        i = i + 1;
    }
    let ghost objects = out@;
    let mut j: usize = 0;
    while j < state.players.len()
        invariant
            j <= state.players@.len(),
            out@ == objects + player_targets(state@, *f, ctx, j as nat),
        decreases state.players@.len() - j,
    {
        let negated: bool = match f {
            TargetFilter::Not { .. } => true,
            _ => false,
        };
        if !state.players[j].is_eliminated && !negated && matches_player(
            state.players[j].id,
            f,
            &ctx,
        ) {
            out.push(TargetRef::Player(state.players[j].id));
        }
        j = j + 1;
        assert(out@ =~= objects + player_targets(state@, *f, ctx, j as nat));
    }
    out
}

/// How many targets an ability takes at least and at most, with `legal` targets to be had.
pub open spec fn target_range(multi: Option<MultiTargetSpec>, legal: nat) -> (nat, nat) {
    match multi {
        None => (1, 1),
        Some(m) => match m.max {
            None => (m.min as nat, legal),
            Some(max) => (m.min as nat, max as nat),
        },
    }
}

/// The slots of one ability for the given filter, or none where it has too few legal targets.
pub open spec fn effect_slots(g: Game, ability: ResolvedAbility, f: TargetFilter) -> Option<
    Seq<TargetSlot>,
> {
    let legal = legal_targets(g, f, ability.source_id, ability.controller);
    let (least, most) = target_range(ability.multi_target, legal.len());
    if !ability.optional_targeting && legal.len() < least {
        None
    } else {
        Some(
            Seq::new(
                most,
                |i: int|
                    TargetSlot {
                        legal_targets: list_of(legal),
                        optional: ability.optional_targeting || i >= least,
                    },
            ),
        )
    }
}

/// The slots of one ability of a chain. What follows a reveal acts on the card revealed.
pub open spec fn own_slots(g: Game, ability: ResolvedAbility, after_reveal: bool) -> Option<
    Seq<TargetSlot>,
> {
    if after_reveal {
        Some(seq![])
    } else {
        match effect_targets(*ability.effect) {
            None => Some(seq![]),
            Some(f) => effect_slots(g, ability, f),
        }
    }
}

fn build_own_slots(state: &GameState, ability: &ResolvedAbility, after_reveal: bool) -> (r: Result<
    Vec<TargetSlot>,
    TargetingError,
>)
    ensures
        match r {
            Ok(slots) => own_slots(state@, *ability, after_reveal) == Some(slots@),
            Err(e) => own_slots(state@, *ability, after_reveal) is None && e
                == TargetingError::NoLegalTargets,
        },
{
    let mut out: Vec<TargetSlot> = Vec::new();
    if after_reveal {
        assert(out@ =~= seq![]);
        return Ok(out);
    }
    let f = match extract_target_filter_from_effect(&ability.effect) {
        None => {
            assert(out@ =~= seq![]);
            return Ok(out);
        },
        Some(f) => f,
    };
    let legal = find_legal_targets(state, f, ability.source_id, ability.controller);
    let count: usize = legal.len();
    let ghost targets = legal@;
    let (least, most): (u64, u64) = match ability.multi_target {
        None => (1, 1),
        Some(m) => match m.max {
            None => (m.min as u64, count as u64),
            Some(max) => (m.min as u64, max as u64),
        },
    };
    if !ability.optional_targeting && (count as u64) < least {
        return Err(TargetingError::NoLegalTargets);
    }
    let list = List::from_vec(legal);
    let mut i: u64 = 0;
    while i < most
        invariant
            i <= most,
            out@.len() == i,
            list == list_of(targets),
            forall|j: int|
                0 <= j < i ==> #[trigger] out@[j] == (TargetSlot {
                    legal_targets: list_of(targets),
                    optional: ability.optional_targeting || j >= least,
                }),
        decreases most - i,
    {
        out.push(
            TargetSlot {
                legal_targets: list.clone(),
                optional: ability.optional_targeting || i >= least,
            },
        );
        i = i + 1;
    }
    proof {
        let expected = effect_slots(state@, *ability, *f)->0;
        assert(out@ =~= expected);
    }
    Ok(out)
}

pub open spec fn is_reveal(effect: Effect) -> bool {
    effect is RevealHand
}

fn reveals(effect: &Effect) -> (r: bool)
    ensures
        r == is_reveal(*effect),
{
    match effect {
        Effect::RevealHand { .. } => true,
        _ => false,
    }
}

/// The slots of a whole chain of abilities, in the order of the chain.
pub open spec fn chain_slots(g: Game, ability: ResolvedAbility, after_reveal: bool) -> Option<
    Seq<TargetSlot>,
>
    decreases ability,
{
    let rest = match ability.sub_ability {
        None => Some(seq![]),
        Some(sub) => chain_slots(g, *sub, is_reveal(*ability.effect)),
    };
    match (own_slots(g, ability, after_reveal), rest) {
        (Some(a), Some(b)) => Some(a + b),
        _ => None,
    }
}

fn build_chain_slots(
    state: &GameState,
    ability: &ResolvedAbility,
    after_reveal: bool,
) -> (r: Result<Vec<TargetSlot>, TargetingError>)
    ensures
        match r {
            Ok(slots) => chain_slots(state@, *ability, after_reveal) == Some(slots@),
            Err(e) => chain_slots(state@, *ability, after_reveal) is None && e
                == TargetingError::NoLegalTargets,
        },
    decreases ability,
{
    let mut own = match build_own_slots(state, ability, after_reveal) {
        Err(e) => {
            return Err(e);
        },
        Ok(slots) => slots,
    };
    if let Some(sub) = &ability.sub_ability {
        let mut rest = match build_chain_slots(state, sub, reveals(&ability.effect)) {
            Err(e) => {
                return Err(e);
            },
            Ok(slots) => slots,
        };
        own.append(&mut rest);
    } else {
        assert(own@ =~= own@ + seq![]);
    }
    Ok(own)
}

/// The targets that an ability takes, one slot for each. Fails where a target that it must
/// have cannot be had (CR 603.3d).
pub fn build_target_slots(state: &GameState, ability: &ResolvedAbility) -> (r: Result<
    Vec<TargetSlot>,
    TargetingError,
>)
    ensures
        match r {
            Ok(slots) => chain_slots(state@, *ability, false) == Some(slots@),
            Err(e) => chain_slots(state@, *ability, false) is None && e
                == TargetingError::NoLegalTargets,
        },
{
    build_chain_slots(state, ability, false)
}

/// What happens when an ability's targets are to be chosen without asking anyone.
pub enum TargetChoice {
    /// Each slot with its target, where it takes one.
    Settled(Seq<Option<TargetRef>>),
    /// A player has to choose.
    Open,
    Impossible(TargetingError),
}

/// Whether a slot leaves a choice: one that must be filled has two targets or more, or one that
/// may be filled has any.
pub open spec fn is_open(slot: TargetSlot) -> bool {
    if slot.optional {
        slot.legal_targets@.len() > 0
    } else {
        slot.legal_targets@.len() > 1
    }
}

pub open spec fn is_stuck(slot: TargetSlot) -> bool {
    !slot.optional && slot.legal_targets@.len() == 0
}

/// The target of a slot that leaves no choice.
pub open spec fn only_target(slot: TargetSlot) -> Option<TargetRef> {
    if slot.optional || slot.legal_targets@.len() == 0 {
        None
    } else {
        Some(slot.legal_targets@[0])
    }
}

/// Whether two slots take the same target.
pub open spec fn repeats(choices: Seq<Option<TargetRef>>) -> bool {
    exists|i: int, j: int|
        0 <= i < j < choices.len() && #[trigger] choices[i] is Some && choices[i]
            == #[trigger] choices[j]
}

/// Whether the chosen targets break a constraint on them.
pub open spec fn breaks_constraints(
    constraints: List<TargetSelectionConstraint>,
    choices: Seq<Option<TargetRef>>,
) -> bool {
    constraints@.contains(TargetSelectionConstraint::DifferentTargets) && repeats(choices)
}

pub open spec fn auto_choice(
    slots: Seq<TargetSlot>,
    constraints: List<TargetSelectionConstraint>,
) -> TargetChoice {
    let choices = Seq::new(slots.len(), |i: int| only_target(slots[i]));
    if exists|i: int| 0 <= i < slots.len() && is_stuck(#[trigger] slots[i]) {
        TargetChoice::Impossible(TargetingError::NoLegalTargets)
    } else if exists|i: int| 0 <= i < slots.len() && is_open(#[trigger] slots[i]) {
        TargetChoice::Open
    } else if breaks_constraints(constraints, choices) {
        TargetChoice::Impossible(TargetingError::RepeatedTarget)
    } else {
        TargetChoice::Settled(choices)
    }
}

/// What a run-time result says about a choice of targets.
pub open spec fn choice_result(
    r: Result<Option<Vec<Option<TargetRef>>>, TargetingError>,
) -> TargetChoice {
    match r {
        Ok(Some(choices)) => TargetChoice::Settled(choices@),
        Ok(None) => TargetChoice::Open,
        Err(e) => TargetChoice::Impossible(e),
    }
}

impl Same for TargetSelectionConstraint {
    fn same(&self, other: &Self) -> (r: bool) {
        *self == *other
    }
}

fn find_repeat(choices: &Vec<Option<TargetRef>>) -> (r: bool)
    ensures
        r == repeats(choices@),
{
    let mut i: usize = 0;
    while i < choices.len()
        invariant
            i <= choices@.len(),
            forall|a: int, b: int|
                0 <= a < i && a < b < choices@.len() && #[trigger] choices@[a] is Some
                    ==> choices@[a] != #[trigger] choices@[b],
        decreases choices@.len() - i,
    {
        if choices[i].is_some() {
            let mut j: usize = i + 1;
            while j < choices.len()
                invariant
                    i < j <= choices@.len(),
                    choices@[i as int] is Some,
                    forall|b: int| i < b < j ==> choices@[i as int] != #[trigger] choices@[b],
                decreases choices@.len() - j,
            {
                if choices[i] == choices[j] {
                    return true;
                }
                j = j + 1;
            }
        }
        i = i + 1;
    }
    false
}

fn check_constraints(
    constraints: &List<TargetSelectionConstraint>,
    choices: &Vec<Option<TargetRef>>,
) -> (r: bool)
    ensures
        r == breaks_constraints(*constraints, choices@),
{
    constraints.contains(&TargetSelectionConstraint::DifferentTargets) && find_repeat(choices)
}

/// Targets an ability whose controller has nothing to choose: every slot that must be filled
/// has one legal target, and no other slot has any.
pub fn auto_select_targets(
    slots: &Vec<TargetSlot>,
    constraints: &List<TargetSelectionConstraint>,
) -> (r: Result<Option<Vec<Option<TargetRef>>>, TargetingError>)
    ensures
        choice_result(r) == auto_choice(slots@, *constraints),
{
    let mut choices: Vec<Option<TargetRef>> = Vec::new();
    let mut open: bool = false;
    let mut i: usize = 0;
    while i < slots.len()
        invariant
            i <= slots@.len(),
            choices@.len() == i,
            forall|j: int| 0 <= j < i ==> #[trigger] choices@[j] == only_target(slots@[j]),
            forall|j: int| 0 <= j < i ==> !is_stuck(#[trigger] slots@[j]),
            open == (exists|j: int| 0 <= j < i && is_open(#[trigger] slots@[j])),
        decreases slots@.len() - i,
    {
        let slot = &slots[i];
        let first = slot.legal_targets.get(0);
        let second = slot.legal_targets.get(1);
        if slot.optional {
            choices.push(None);
            if first.is_some() {
                assert(is_open(slots@[i as int]));
                open = true;
            }
        } else {
            match first {
                None => {
                    assert(is_stuck(slots@[i as int]));
                    return Err(TargetingError::NoLegalTargets);
                },
                Some(target) => {
                    choices.push(Some(*target));
                },
            }
            if second.is_some() {
                assert(is_open(slots@[i as int]));
                open = true;
            }
        }
        i = i + 1;
    }
    if open {
        return Ok(None);
    }
    assert(choices@ =~= Seq::new(slots@.len(), |j: int| only_target(slots@[j])));
    if check_constraints(constraints, &choices) {
        return Err(TargetingError::RepeatedTarget);
    }
    Ok(Some(choices))
}

/// The state of the random number generator after one more number.
pub open spec fn rng_next(state: u64) -> u64 {
    state.wrapping_mul(6364136223846793005).wrapping_add(1442695040888963407)
}

/// The state of the random number generator after `n` more numbers.
pub open spec fn rng_after(state: u64, n: nat) -> u64
    decreases n,
{
    if n == 0 {
        state
    } else {
        rng_next(rng_after(state, (n - 1) as nat))
    }
}

/// How many targets chance picks from: as many as a machine can count.
pub open spec fn countable(targets: Seq<TargetRef>) -> nat {
    if targets.len() <= usize::MAX {
        targets.len()
    } else {
        usize::MAX as nat
    }
}

/// The target that a slot gets from a random number.
pub open spec fn random_target(slot: TargetSlot, number: u64) -> Option<TargetRef> {
    let n = countable(slot.legal_targets@);
    if n == 0 {
        None
    } else {
        Some(slot.legal_targets@[(number as int / 4294967296) % (n as int)])
    }
}

/// The targets of the slots when chance picks them: each slot uses up one random number.
pub open spec fn random_choice(
    g: Game,
    slots: Seq<TargetSlot>,
    constraints: List<TargetSelectionConstraint>,
) -> TargetChoice {
    let choices = Seq::new(
        slots.len(),
        |i: int| random_target(slots[i], rng_after(g.rng_state, (i + 1) as nat)),
    );
    if exists|i: int| 0 <= i < slots.len() && is_stuck(#[trigger] slots[i]) {
        TargetChoice::Impossible(TargetingError::NoLegalTargets)
    } else if breaks_constraints(constraints, choices) {
        TargetChoice::Impossible(TargetingError::RepeatedTarget)
    } else {
        TargetChoice::Settled(choices)
    }
}

fn any_stuck(slots: &Vec<TargetSlot>) -> (r: bool)
    ensures
        r == (exists|i: int| 0 <= i < slots@.len() && is_stuck(#[trigger] slots@[i])),
{
    let mut i: usize = 0;
    while i < slots.len()
        invariant
            i <= slots@.len(),
            forall|j: int| 0 <= j < i ==> !is_stuck(#[trigger] slots@[j]),
        decreases slots@.len() - i,
    {
        if !slots[i].optional && slots[i].legal_targets.is_empty() {
            assert(is_stuck(slots@[i as int]));
            return true;
        }
        i = i + 1;
    }
    false
}

/// Targets an ability at random (CR 701.9b).
pub fn random_select_targets(
    state: &mut GameState,
    slots: &Vec<TargetSlot>,
    constraints: &List<TargetSelectionConstraint>,
) -> (r: Result<Option<Vec<Option<TargetRef>>>, TargetingError>)
    ensures
        choice_result(r) == random_choice(old(state)@, slots@, *constraints),
        final(state)@ == (Game {
            rng_state: rng_after(old(state)@.rng_state, slots@.len()),
            ..old(state)@
        }),
{
    let mut choices: Vec<Option<TargetRef>> = Vec::new();
    let mut i: usize = 0;
    while i < slots.len()
        invariant
            i <= slots@.len(),
            choices@.len() == i,
            state@ == (Game { rng_state: rng_after(old(state)@.rng_state, i as nat), ..old(state)@ }),
            forall|j: int|
                0 <= j < i ==> #[trigger] choices@[j] == random_target(
                    slots@[j],
                    rng_after(old(state)@.rng_state, (j + 1) as nat),
                ),
        decreases slots@.len() - i,
    {
        let number: u64 = state.rng_state.wrapping_mul(6364136223846793005).wrapping_add(
            1442695040888963407,
        );
        state.rng_state = number;
        assert(number == rng_after(old(state)@.rng_state, (i + 1) as nat));
        let n: usize = slots[i].legal_targets.len();
        if n == 0 {
            choices.push(None);
        } else {
            let pick: usize = ((number / 4294967296) % (n as u64)) as usize;
            match slots[i].legal_targets.get(pick) {
                None => {
                    choices.push(None);
                },
                Some(target) => {
                    choices.push(Some(*target));
                },
            }
        }
        i = i + 1;
    }
    assert(choices@ =~= Seq::new(
        slots@.len(),
        |j: int| random_target(slots@[j], rng_after(old(state)@.rng_state, (j + 1) as nat)),
    ));
    if any_stuck(slots) {
        return Err(TargetingError::NoLegalTargets);
    }
    if check_constraints(constraints, &choices) {
        return Err(TargetingError::RepeatedTarget);
    }
    Ok(Some(choices))
}

/// The targets among the choices from `from` up to `to`.
pub open spec fn picked(choices: Seq<Option<TargetRef>>, from: nat, to: nat) -> Seq<TargetRef>
    decreases to,
{
    if to <= from || to == 0 {
        seq![]
    } else {
        let before = picked(choices, from, (to - 1) as nat);
        match choices[to - 1] {
            None => before,
            Some(target) => before.push(target),
        }
    }
}

/// Where the slots of an ability end that begin at `from`.
pub open spec fn slots_end(
    g: Game,
    ability: ResolvedAbility,
    after_reveal: bool,
    choices: Seq<Option<TargetRef>>,
    from: nat,
) -> nat {
    match own_slots(g, ability, after_reveal) {
        None => from,
        Some(slots) => if from + slots.len() <= choices.len() {
            from + slots.len()
        } else {
            choices.len()
        },
    }
}

/// A chain of abilities with its targets filled in: each ability takes the choices for its own
/// slots.
pub open spec fn with_targets(
    g: Game,
    ability: ResolvedAbility,
    after_reveal: bool,
    choices: Seq<Option<TargetRef>>,
    from: nat,
) -> ResolvedAbility
    decreases ability,
{
    let to = slots_end(g, ability, after_reveal, choices, from);
    ResolvedAbility {
        targets: list_of(picked(choices, from, to)),
        sub_ability: match ability.sub_ability {
            None => None,
            Some(sub) => Some(
                Rc::new(with_targets(g, *sub, is_reveal(*ability.effect), choices, to)),
            ),
        },
        ..ability
    }
}

pub fn assign_targets_in_chain(
    state: &GameState,
    ability: &ResolvedAbility,
    after_reveal: bool,
    choices: &Vec<Option<TargetRef>>,
    from: usize,
) -> (r: ResolvedAbility)
    requires
        from <= choices@.len(),
    ensures
        r == with_targets(state@, *ability, after_reveal, choices@, from as nat),
    decreases ability,
{
    let to: usize = match build_own_slots(state, ability, after_reveal) {
        Err(_) => from,
        Ok(slots) => if slots.len() <= choices.len() - from {
            from + slots.len()
        } else {
            choices.len()
        },
    };
    let mut targets: Vec<TargetRef> = Vec::new();
    let mut i: usize = from;
    while i < to
        invariant
            from <= i,
            i <= to || to < from,
            to <= choices@.len(),
            targets@ == picked(choices@, from as nat, i as nat),
        decreases to - i,
    {
        if let Some(target) = choices[i] {
            targets.push(target);
        }
        i = i + 1;
    }
    let mut r: ResolvedAbility = ability.clone();
    r.targets = List::from_vec(targets);
    if let Some(sub) = &ability.sub_ability {
        r.sub_ability = Some(
            Rc::new(assign_targets_in_chain(state, sub, reveals(&ability.effect), choices, to)),
        );
    }
    r
}

/// The targets of a whole chain of abilities.
pub open spec fn all_targets(ability: ResolvedAbility) -> Seq<TargetRef>
    decreases ability,
{
    ability.targets@ + match ability.sub_ability {
        None => seq![],
        Some(sub) => all_targets(*sub),
    }
}

fn push_targets(out: &mut Vec<TargetRef>, targets: &List<TargetRef>)
    ensures
        final(out)@ == old(out)@ + targets@,
    decreases targets,
{
    match &targets.node {
        None => {
            assert(out@ =~= old(out)@ + targets@);
        },
        Some(n) => {
            out.push(*n.item);
            push_targets(out, &n.rest);
            assert(out@ =~= old(out)@ + targets@);
        },
    }
}

pub fn flatten_targets_in_chain(ability: &ResolvedAbility) -> (r: Vec<TargetRef>)
    ensures
        r@ == all_targets(*ability),
    decreases ability,
{
    let mut out: Vec<TargetRef> = Vec::new();
    push_targets(&mut out, &ability.targets);
    match &ability.sub_ability {
        None => {
            assert(out@ =~= all_targets(*ability));
        },
        Some(sub) => {
            let mut rest = flatten_targets_in_chain(sub);
            out.append(&mut rest);
            assert(out@ =~= all_targets(*ability));
        },
    }
    out
}

/// How much an effect divides among its targets, where that is a fixed number.
pub open spec fn fixed_total(effect: Effect) -> Option<u32> {
    let amount = match effect {
        Effect::DealDamage { amount, .. } => Some(amount),
        Effect::PutCounter { count, .. } => Some(count),
        _ => None,
    };
    match amount {
        Some(QuantityExpr::Fixed { value }) => if value >= 0 {
            Some(value as u32)
        } else {
            None
        },
        _ => None,
    }
}

pub fn extract_fixed_distribution_total(effect: &Effect) -> (r: Option<u32>)
    ensures
        r == fixed_total(*effect),
{
    let amount = match effect {
        Effect::DealDamage { amount, .. } => amount,
        Effect::PutCounter { count, .. } => count,
        _ => {
            return None;
        },
    };
    match amount {
        QuantityExpr::Fixed { value } => if *value >= 0 {
            Some(*value as u32)
        } else {
            None
        },
        _ => None,
    }
}

} // verus!
