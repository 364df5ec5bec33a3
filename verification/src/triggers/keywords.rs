//! The triggered abilities that keywords and the rules themselves bring with them: cards carry
//! no text for these.

use crate::ability::{
    AbilityCost, AbilityKind, DelayedTiming, Effect, Keyword, ManaContribution, ManaCost,
    ManaProduction, MayTriggerOrigin, PtValue, QuantityExpr, ResolvedAbility, TargetFilter,
    TriggerCondition, TypeFilter, TypedFilter, UnlessPayModifier, WardCost,
};
use crate::events::GameEvent;
use crate::ids::{
    ControllerRef, CoreType, KeywordKind, ManaColor, ManaExpiry, ObjectId, Phase, PlayerId, Zone,
};
use crate::list::{list_of, List};
use crate::object::{BendingTypes, GameObject, Player};
use crate::state::{Game, GameState, StackEntry};
use crate::text::Text;
use crate::triggers::collect::{single_context, PendingTriggerContext};
use crate::triggers::PendingTrigger;
use std::rc::Rc;
use vstd::prelude::*;

verus! {

/// A pending trigger that no card prints.
pub open spec fn unprinted(
    source_id: ObjectId,
    controller: PlayerId,
    condition: Option<Rc<TriggerCondition>>,
    ability: ResolvedAbility,
    timestamp: u32,
    event: GameEvent,
    description: Option<Text>,
    origin: Option<MayTriggerOrigin>,
) -> PendingTrigger {
    PendingTrigger {
        source_id,
        controller,
        condition,
        ability,
        timestamp,
        target_constraints: list_of(seq![]),
        distribute: None,
        trigger_event: Some(event),
        modal: None,
        mode_abilities: None,
        description,
        may_trigger_origin: origin,
    }
}

pub fn build_unprinted(
    source_id: ObjectId,
    controller: PlayerId,
    condition: Option<Rc<TriggerCondition>>,
    ability: ResolvedAbility,
    timestamp: u32,
    event: &GameEvent,
    description: Option<Text>,
    origin: Option<MayTriggerOrigin>,
) -> (r: PendingTrigger)
    ensures
        r == unprinted(
            source_id,
            controller,
            condition,
            ability,
            timestamp,
            *event,
            description,
            origin,
        ),
{
    PendingTrigger {
        source_id,
        controller,
        condition,
        ability,
        timestamp,
        target_constraints: List::new(),
        distribute: None,
        trigger_event: Some(event.clone()),
        modal: None,
        mode_abilities: None,
        description,
        may_trigger_origin: origin,
    }
}

/// The turn in which an object entered the battlefield, by which its triggers are ordered.
pub open spec fn entry_turn(o: GameObject) -> u32 {
    match o.entered_battlefield_turn {
        None => 0,
        Some(turn) => turn,
    }
}

pub fn find_entry_turn(o: &GameObject) -> (r: u32)
    ensures
        r == entry_turn(*o),
{
    match o.entered_battlefield_turn {
        None => 0,
        Some(turn) => turn,
    }
}

pub open spec fn draw_one() -> Effect {
    Effect::Draw { count: QuantityExpr::Fixed { value: 1 }, target: TargetFilter::Controller }
}

pub fn build_draw_one() -> (r: Effect)
    ensures
        r == draw_one(),
{
    Effect::Draw { count: QuantityExpr::Fixed { value: 1 }, target: TargetFilter::Controller }
}

/// CR 702.108a: Prowess triggers when its controller casts a noncreature spell.
pub open spec fn prowess_triggers(g: Game, o: GameObject, id: ObjectId, event: GameEvent) -> Seq<
    PendingTriggerContext,
> {
    match event {
        GameEvent::SpellCast { controller, object_id, .. } => if o.has(KeywordKind::Prowess)
            && controller == o.controller && (g.object(object_id) matches Some(spell)
            && !spell.is_type(CoreType::Creature)) {
            let pump = Effect::Pump {
                power: PtValue::Fixed(1),
                toughness: PtValue::Fixed(1),
                target: TargetFilter::SelfRef,
            };
            seq![
                single_context(
                    unprinted(
                        id,
                        o.controller,
                        None,
                        ResolvedAbility::plain(pump, seq![], id, o.controller),
                        entry_turn(o),
                        event,
                        Some(Text::Literal("Prowess")),
                        None,
                    ),
                ),
            ]
        } else {
            seq![]
        },
        _ => seq![],
    }
}

fn push_prowess(
    state: &GameState,
    o: &GameObject,
    id: ObjectId,
    event: &GameEvent,
    pending: &mut Vec<PendingTriggerContext>,
)
    ensures
        final(pending)@ == old(pending)@ + prowess_triggers(state@, *o, id, *event),
{
    if let GameEvent::SpellCast { controller, object_id, .. } = event {
        let is_noncreature: bool = match state.objects.get(object_id) {
            None => false,
            Some(spell) => !spell.has_core_type(CoreType::Creature),
        };
        if o.has_keyword(KeywordKind::Prowess) && *controller == o.controller && is_noncreature {
            let pump = Effect::Pump {
                power: PtValue::Fixed(1),
                toughness: PtValue::Fixed(1),
                target: TargetFilter::SelfRef,
            };
            pending.push(
                PendingTriggerContext::single(
                    build_unprinted(
                        id,
                        o.controller,
                        None,
                        ResolvedAbility::new(pump, Vec::new(), id, o.controller),
                        find_entry_turn(o),
                        event,
                        Some(Text::Literal("Prowess")),
                        None,
                    ),
                ),
            );
        }
    }
    assert(pending@ =~= old(pending)@ + prowess_triggers(state@, *o, id, *event));
}

/// CR 702.156a + CR 107.3m: Ravenous includes "When this permanent
/// enters, if X is 5 or more, draw a card."
pub open spec fn ravenous_triggers(o: GameObject, id: ObjectId, event: GameEvent) -> Seq<
    PendingTriggerContext,
> {
    match event {
        GameEvent::ZoneChanged { object_id, to, .. } => if o.has(KeywordKind::Ravenous) && to
            == Zone::Battlefield && object_id == id && (o.cost_x_paid matches Some(x) && x >= 5) {
            seq![
                single_context(
                    unprinted(
                        id,
                        o.controller,
                        None,
                        ResolvedAbility::plain(draw_one(), seq![], id, o.controller),
                        entry_turn(o),
                        event,
                        Some(Text::Literal("Ravenous")),
                        None,
                    ),
                ),
            ]
        } else {
            seq![]
        },
        _ => seq![],
    }
}

fn push_ravenous(
    o: &GameObject,
    id: ObjectId,
    event: &GameEvent,
    pending: &mut Vec<PendingTriggerContext>,
)
    ensures
        final(pending)@ == old(pending)@ + ravenous_triggers(*o, id, *event),
{
    if let GameEvent::ZoneChanged { object_id, to, .. } = event {
        let large: bool = match o.cost_x_paid {
            None => false,
            Some(x) => x >= 5,
        };
        if o.has_keyword(KeywordKind::Ravenous) && *to == Zone::Battlefield && *object_id == id
            && large {
            pending.push(
                PendingTriggerContext::single(
                    build_unprinted(
                        id,
                        o.controller,
                        None,
                        ResolvedAbility::new(build_draw_one(), Vec::new(), id, o.controller),
                        find_entry_turn(o),
                        event,
                        Some(Text::Literal("Ravenous")),
                        None,
                    ),
                ),
            );
        }
    }
    assert(pending@ =~= old(pending)@ + ravenous_triggers(*o, id, *event));
}

/// The number of the first firebending keyword.
pub open spec fn firebending_number(keywords: List<Keyword>) -> Option<u32>
    decreases keywords,
{
    match keywords.node {
        None => None,
        Some(n) => match *n.item {
            Keyword::Firebending(number) => Some(number),
            _ => firebending_number(n.rest),
        },
    }
}

fn find_firebending(keywords: &List<Keyword>) -> (r: Option<u32>)
    ensures
        r == firebending_number(*keywords),
    decreases keywords,
{
    match &keywords.node {
        None => None,
        Some(n) => match &*n.item {
            Keyword::Firebending(number) => Some(*number),
            _ => find_firebending(&n.rest),
        },
    }
}

/// How much mana an attack brings an object with firebending, or 0.
pub open spec fn firebends(o: GameObject, id: ObjectId, event: GameEvent) -> u32 {
    match event {
        GameEvent::AttackersDeclared { attacker_ids, .. } => match firebending_number(o.keywords) {
            Some(n) => if attacker_ids@.contains(id) {
                n
            } else {
                0
            },
            None => 0,
        },
        _ => 0,
    }
}

fn find_firebends(o: &GameObject, id: ObjectId, event: &GameEvent) -> (r: u32)
    ensures
        r == firebends(*o, id, *event),
{
    match event {
        GameEvent::AttackersDeclared { attacker_ids, .. } => match find_firebending(&o.keywords) {
            Some(n) => if attacker_ids.contains(&id) {
                n
            } else {
                0
            },
            None => 0,
        },
        _ => 0,
    }
}

pub open spec fn red_mana(n: u32) -> Effect {
    Effect::Mana {
        produced: ManaProduction::Fixed {
            colors: list_of(Seq::new(n as nat, |i: int| ManaColor::Red)),
            contribution: ManaContribution::Base,
        },
        expiry: Some(ManaExpiry::EndOfCombat),
        target: None,
    }
}

fn build_red_mana(n: u32) -> (r: Effect)
    ensures
        r == red_mana(n),
{
    let mut colors: Vec<ManaColor> = Vec::new();
    let mut i: u32 = 0;
    while i < n
        invariant
            i <= n,
            colors@.len() == i,
            forall|j: int| 0 <= j < i ==> colors@[j] == ManaColor::Red,
        decreases n - i,
    {
        colors.push(ManaColor::Red);
        i = i + 1;
    }
    assert(colors@ =~= Seq::new(n as nat, |j: int| ManaColor::Red));
    Effect::Mana {
        produced: ManaProduction::Fixed {
            colors: List::from_vec(colors),
            contribution: ManaContribution::Base,
        },
        expiry: Some(ManaExpiry::EndOfCombat),
        target: None,
    }
}

/// Firebending N triggers when a creature with firebending is declared as attacker.
/// Produces N {R} mana with EndOfCombat expiry.
pub open spec fn firebending_triggers(o: GameObject, id: ObjectId, event: GameEvent) -> Seq<
    PendingTriggerContext,
> {
    let n = firebends(o, id, event);
    if n > 0 {
        seq![
            single_context(
                unprinted(
                    id,
                    o.controller,
                    None,
                    ResolvedAbility::plain(red_mana(n), seq![], id, o.controller),
                    entry_turn(o),
                    event,
                    Some(Text::Numbered("Firebending", n)),
                    None,
                ),
            ),
        ]
    } else {
        seq![]
    }
}

/// The game in which a player has bent fire this turn.
pub open spec fn fire_bent(g: Game, player: PlayerId) -> Game {
    match g.player(player) {
        None => g,
        Some(p) => g.set_player(
            player,
            Player {
                bending_types_this_turn: BendingTypes { fire: true, ..p.bending_types_this_turn },
                ..p
            },
        ),
    }
}

/// The game after an object's firebending, where it has triggered.
pub open spec fn after_firebending(g: Game, o: GameObject, id: ObjectId, event: GameEvent) -> Game {
    if firebends(o, id, event) > 0 {
        fire_bent(g, o.controller)
    } else {
        g
    }
}

fn push_firebending(
    o: &GameObject,
    id: ObjectId,
    event: &GameEvent,
    pending: &mut Vec<PendingTriggerContext>,
)
    ensures
        final(pending)@ == old(pending)@ + firebending_triggers(*o, id, *event),
{
    let n: u32 = find_firebends(o, id, event);
    if n > 0 {
        pending.push(
            PendingTriggerContext::single(
                build_unprinted(
                    id,
                    o.controller,
                    None,
                    ResolvedAbility::new(build_red_mana(n), Vec::new(), id, o.controller),
                    find_entry_turn(o),
                    event,
                    Some(Text::Numbered("Firebending", n)),
                    None,
                ),
            ),
        );
    }
    assert(pending@ =~= old(pending)@ + firebending_triggers(*o, id, *event));
}

/// Notes that a player has bent fire this turn, where the player is in the game.
pub fn note_fire_bent(state: &mut GameState, player: PlayerId)
    ensures
        final(state)@ == fire_bent(old(state)@, player),
{
    let seat: usize = state.find_seat(player);
    if seat < state.players.len() {
        state.players[seat].bending_types_this_turn.fire = true;
    }
}

/// What sets up the sacrifice of a decayed attacker at end of combat.
pub open spec fn decayed_effect() -> Effect {
    Effect::CreateDelayedTrigger {
        condition: DelayedTiming::AtNextPhase { phase: Phase::EndCombat },
        kind: AbilityKind::Spell,
        effect: Rc::new(
            Effect::Sacrifice {
                target: TargetFilter::SelfRef,
                count: QuantityExpr::Fixed { value: 1 },
                min_count: 0,
            },
        ),
        uses_tracked_set: false,
    }
}

/// CR 702.147a: Decayed means "When this creature attacks, sacrifice
/// it at end of combat."
pub open spec fn decayed_triggers(o: GameObject, id: ObjectId, event: GameEvent) -> Seq<
    PendingTriggerContext,
> {
    match event {
        GameEvent::AttackersDeclared { attacker_ids, .. } => if o.has(KeywordKind::Decayed)
            && attacker_ids@.contains(id) {
            seq![
                single_context(
                    unprinted(
                        id,
                        o.controller,
                        None,
                        ResolvedAbility::plain(decayed_effect(), seq![], id, o.controller),
                        entry_turn(o),
                        event,
                        Some(Text::Literal("Decayed")),
                        None,
                    ),
                ),
            ]
        } else {
            seq![]
        },
        _ => seq![],
    }
}

fn push_decayed(
    o: &GameObject,
    id: ObjectId,
    event: &GameEvent,
    pending: &mut Vec<PendingTriggerContext>,
)
    ensures
        final(pending)@ == old(pending)@ + decayed_triggers(*o, id, *event),
{
    if let GameEvent::AttackersDeclared { attacker_ids, .. } = event {
        if o.has_keyword(KeywordKind::Decayed) && attacker_ids.contains(&id) {
            let effect = Effect::CreateDelayedTrigger {
                condition: DelayedTiming::AtNextPhase { phase: Phase::EndCombat },
                kind: AbilityKind::Spell,
                effect: Rc::new(
                    Effect::Sacrifice {
                        target: TargetFilter::SelfRef,
                        count: QuantityExpr::Fixed { value: 1 },
                        min_count: 0,
                    },
                ),
                uses_tracked_set: false,
            };
            pending.push(
                PendingTriggerContext::single(
                    build_unprinted(
                        id,
                        o.controller,
                        None,
                        ResolvedAbility::new(effect, Vec::new(), id, o.controller),
                        find_entry_turn(o),
                        event,
                        Some(Text::Literal("Decayed")),
                        None,
                    ),
                ),
            );
        }
    }
    assert(pending@ =~= old(pending)@ + decayed_triggers(*o, id, *event));
}

pub open spec fn exploit_effect() -> Effect {
    Effect::Exploit {
        target: TargetFilter::Typed(
            TypedFilter {
                type_filters: list_of(seq![TypeFilter::Creature]),
                controller: Some(ControllerRef::You),
                properties: list_of(seq![]),
            },
        ),
    }
}

/// CR 702.110a: When a creature with exploit enters, the controller may sacrifice a creature.
pub open spec fn exploit_triggers(o: GameObject, id: ObjectId, event: GameEvent) -> Seq<
    PendingTriggerContext,
> {
    match event {
        GameEvent::ZoneChanged { object_id, to, .. } => if o.has(KeywordKind::Exploit) && to
            == Zone::Battlefield && object_id == id {
            seq![
                single_context(
                    unprinted(
                        id,
                        o.controller,
                        None,
                        ResolvedAbility {
                            optional: true,
                            ..ResolvedAbility::plain(exploit_effect(), seq![], id, o.controller)
                        },
                        entry_turn(o),
                        event,
                        None,
                        Some(MayTriggerOrigin::Keyword { keyword: KeywordKind::Exploit }),
                    ),
                ),
            ]
        } else {
            seq![]
        },
        _ => seq![],
    }
}

fn push_exploit(
    o: &GameObject,
    id: ObjectId,
    event: &GameEvent,
    pending: &mut Vec<PendingTriggerContext>,
)
    ensures
        final(pending)@ == old(pending)@ + exploit_triggers(*o, id, *event),
{
    if let GameEvent::ZoneChanged { object_id, to, .. } = event {
        if o.has_keyword(KeywordKind::Exploit) && *to == Zone::Battlefield && *object_id == id {
            let effect = Effect::Exploit {
                target: TargetFilter::Typed(
                    TypedFilter {
                        type_filters: List::one(TypeFilter::Creature),
                        controller: Some(ControllerRef::You),
                        properties: List::new(),
                    },
                ),
            };
            let mut ability = ResolvedAbility::new(effect, Vec::new(), id, o.controller);
            ability.optional = true;
            pending.push(
                PendingTriggerContext::single(
                    build_unprinted(
                        id,
                        o.controller,
                        None,
                        ability,
                        find_entry_turn(o),
                        event,
                        None,
                        Some(MayTriggerOrigin::Keyword { keyword: KeywordKind::Exploit }),
                    ),
                ),
            );
        }
    }
    assert(pending@ =~= old(pending)@ + exploit_triggers(*o, id, *event));
}

/// What paying a ward cost means. Of a compound cost the first part counts.
pub open spec fn ward_payment(ward_cost: WardCost) -> AbilityCost
    decreases ward_cost,
{
    match ward_cost {
        WardCost::Mana(cost) => AbilityCost::Mana { cost },
        WardCost::PayLife(amount) => AbilityCost::PayLife {
            amount: QuantityExpr::Fixed { value: amount },
        },
        WardCost::DiscardCard => AbilityCost::Discard {
            count: QuantityExpr::Fixed { value: 1 },
            filter: None,
            random: false,
            self_ref: false,
        },
        WardCost::Sacrifice { count, filter } => AbilityCost::Sacrifice { target: filter, count },
        WardCost::Waterbend(cost) => AbilityCost::Mana { cost },
        WardCost::Compound(costs) => match costs.node {
            None => AbilityCost::Mana { cost: ManaCost::generic_spec(0) },
            Some(n) => ward_payment(*n.item),
        },
    }
}

/// CR 702.21a + CR 118.12: Convert a WardCost to an `AbilityCost` for the
/// counter effect's `unless_pay` modifier.
pub fn ward_cost_to_ability_cost(ward_cost: &WardCost) -> (r: AbilityCost)
    ensures
        r == ward_payment(*ward_cost),
    decreases ward_cost,
{
    match ward_cost {
        WardCost::Mana(cost) => AbilityCost::Mana { cost: *cost },
        WardCost::PayLife(amount) => AbilityCost::PayLife {
            amount: QuantityExpr::Fixed { value: *amount },
        },
        WardCost::DiscardCard => AbilityCost::Discard {
            count: QuantityExpr::Fixed { value: 1 },
            filter: None,
            random: false,
            self_ref: false,
        },
        WardCost::Sacrifice { count, filter } => AbilityCost::Sacrifice {
            target: filter.clone(),
            count: *count,
        },
        // CR 702.21a + CR 701.67: Waterbend ward cost maps to mana payment.
        WardCost::Waterbend(cost) => AbilityCost::Mana { cost: *cost },
        // CR 702.21a: Compound ward cost: use the first component as the unless cost.
        WardCost::Compound(costs) => match &costs.node {
            None => AbilityCost::Mana { cost: ManaCost::zero() },
            Some(n) => ward_cost_to_ability_cost(&n.item),
        },
    }
}

/// The first entry of the stack, from `from` up, that is or comes from the given object.
pub open spec fn stack_entry_of(stack: Seq<StackEntry>, id: ObjectId, from: nat) -> Option<
    StackEntry,
>
    decreases stack.len() - from,
{
    if from >= stack.len() {
        None
    } else if stack[from as int].id == id || stack[from as int].source_id == id {
        Some(stack[from as int])
    } else {
        stack_entry_of(stack, id, from + 1)
    }
}

/// Who controls what targets something: a spell or ability on the stack, else a permanent.
pub open spec fn targeting_controller(g: Game, source_id: ObjectId) -> Option<PlayerId> {
    match stack_entry_of(g.stack, source_id, 0) {
        Some(entry) => Some(entry.controller),
        None => g.controller_of(source_id),
    }
}

fn find_targeting_controller(state: &GameState, source_id: ObjectId) -> (r: Option<PlayerId>)
    ensures
        r == targeting_controller(state@, source_id),
{
    let mut i: usize = 0;
    while i < state.stack.len()
        invariant
            i <= state.stack@.len(),
            stack_entry_of(state@.stack, source_id, 0) == stack_entry_of(
                state@.stack,
                source_id,
                i as nat,
            ),
        decreases state.stack@.len() - i,
    {
        if state.stack[i].id == source_id || state.stack[i].source_id == source_id {
            return Some(state.stack[i].controller);
        }
        i = i + 1;
    }
    match state.objects.get(&source_id) {
        None => None,
        Some(o) => Some(o.controller),
    }
}

/// Whether an event makes an opponent's spell or ability target the object.
pub open spec fn ward_set_off(g: Game, o: GameObject, id: ObjectId, event: GameEvent) -> bool {
    event matches GameEvent::BecomesTarget { object_id, source_id } && object_id == id
        && targeting_controller(g, source_id) is Some && targeting_controller(g, source_id) != Some(
        o.controller,
    )
}

pub open spec fn ward_ability(
    cost: WardCost,
    id: ObjectId,
    controller: PlayerId,
) -> ResolvedAbility {
    ResolvedAbility {
        unless_pay: Some(
            Rc::new(
                UnlessPayModifier {
                    cost: ward_payment(cost),
                    payer: TargetFilter::TriggeringSpellController,
                },
            ),
        ),
        ..ResolvedAbility::plain(
            Effect::Counter { target: TargetFilter::TriggeringSource },
            seq![],
            id,
            controller,
        )
    }
}

/// CR 702.21a: Each ward instance triggers independently.
pub open spec fn ward_triggers_of(
    keywords: List<Keyword>,
    o: GameObject,
    id: ObjectId,
    event: GameEvent,
) -> Seq<PendingTriggerContext>
    decreases keywords,
{
    match keywords.node {
        None => seq![],
        Some(n) => {
            let rest = ward_triggers_of(n.rest, o, id, event);
            match *n.item {
                Keyword::Ward(cost) => seq![
                    single_context(
                        unprinted(
                            id,
                            o.controller,
                            None,
                            ward_ability(cost, id, o.controller),
                            entry_turn(o),
                            event,
                            Some(Text::Literal("Ward")),
                            None,
                        ),
                    ),
                ] + rest,
                _ => rest,
            }
        },
    }
}

pub open spec fn ward_triggers(g: Game, o: GameObject, id: ObjectId, event: GameEvent) -> Seq<
    PendingTriggerContext,
> {
    if ward_set_off(g, o, id, event) {
        ward_triggers_of(o.keywords, o, id, event)
    } else {
        seq![]
    }
}

fn push_wards_of(
    keywords: &List<Keyword>,
    o: &GameObject,
    id: ObjectId,
    event: &GameEvent,
    pending: &mut Vec<PendingTriggerContext>,
)
    ensures
        final(pending)@ == old(pending)@ + ward_triggers_of(*keywords, *o, id, *event),
    decreases keywords,
{
    match &keywords.node {
        None => {},
        Some(n) => {
            if let Keyword::Ward(cost) = &*n.item {
                let mut ability = ResolvedAbility::new(
                    Effect::Counter { target: TargetFilter::TriggeringSource },
                    Vec::new(),
                    id,
                    o.controller,
                );
                ability.unless_pay = Some(
                    Rc::new(
                        UnlessPayModifier {
                            cost: ward_cost_to_ability_cost(cost),
                            payer: TargetFilter::TriggeringSpellController,
                        },
                    ),
                );
                pending.push(
                    PendingTriggerContext::single(
                        build_unprinted(
                            id,
                            o.controller,
                            None,
                            ability,
                            find_entry_turn(o),
                            event,
                            Some(Text::Literal("Ward")),
                            None,
                        ),
                    ),
                );
            }
            push_wards_of(&n.rest, o, id, event, pending);
        },
    }
    assert(pending@ =~= old(pending)@ + ward_triggers_of(*keywords, *o, id, *event));
}

fn push_wards(
    state: &GameState,
    o: &GameObject,
    id: ObjectId,
    event: &GameEvent,
    pending: &mut Vec<PendingTriggerContext>,
)
    ensures
        final(pending)@ == old(pending)@ + ward_triggers(state@, *o, id, *event),
{
    if let GameEvent::BecomesTarget { object_id, source_id } = event {
        if *object_id == id {
            let set_off: bool = match find_targeting_controller(state, *source_id) {
                None => false,
                Some(controller) => controller != o.controller,
            };
            if set_off {
                push_wards_of(&o.keywords, o, id, event, pending);
                return;
            }
        }
    }
    assert(pending@ =~= old(pending)@ + ward_triggers(state@, *o, id, *event));
}

/// The triggers that a permanent's keywords bring on an event.
#[verifier::opaque]
pub open spec fn keyword_triggers(g: Game, o: GameObject, id: ObjectId, event: GameEvent) -> Seq<
    PendingTriggerContext,
> {
    prowess_triggers(g, o, id, event) + ravenous_triggers(o, id, event) + firebending_triggers(
        o,
        id,
        event,
    ) + decayed_triggers(o, id, event) + exploit_triggers(o, id, event) + ward_triggers(
        g,
        o,
        id,
        event,
    )
}

/// Adds the triggers of a permanent's keywords, and says whether it has bent fire.
pub fn push_keyword_triggers(
    state: &GameState,
    o: &GameObject,
    id: ObjectId,
    event: &GameEvent,
    pending: &mut Vec<PendingTriggerContext>,
) -> (r: bool)
    ensures
        final(pending)@ == old(pending)@ + keyword_triggers(state@, *o, id, *event),
        r == (firebends(*o, id, *event) > 0),
{
    proof {
        reveal(keyword_triggers);
    }
    push_prowess(state, o, id, event, pending);
    push_ravenous(o, id, event, pending);
    push_firebending(o, id, event, pending);
    push_decayed(o, id, event, pending);
    push_exploit(o, id, event, pending);
    push_wards(state, o, id, event, pending);
    assert(pending@ =~= old(pending)@ + keyword_triggers(state@, *o, id, *event));
    find_firebends(o, id, event) > 0
}

} // verus!
