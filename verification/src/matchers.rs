//! Which events a triggered ability fires on, by the mode of the trigger.

use crate::ability::{AttackTargetFilter, TargetFilter, TriggerDefinition, TriggerMode};
use crate::events::GameEvent;
use crate::filter::{
    matches_player, matches_subject, matches_target_filter, moved_subject, object_matches,
    player_matches, source_context, subject_matches, subject_of_move, FilterContext,
};
use crate::ids::{AttackTarget, ObjectId, PlayerId, TargetRef};
use crate::list::{list_of, List};
use crate::state::{Game, GameState};
use vstd::prelude::*;

verus! {

/// Whether an optional filter lets an object through. Without a filter, every object passes.
pub open spec fn allows_object(
    g: Game,
    f: Option<TargetFilter>,
    id: ObjectId,
    ctx: FilterContext,
) -> bool {
    match f {
        None => true,
        Some(filter) => filter is Any || object_matches(g, id, filter, ctx),
    }
}

pub fn object_allowed(
    state: &GameState,
    f: &Option<TargetFilter>,
    id: ObjectId,
    ctx: &FilterContext,
) -> (r: bool)
    ensures
        r == allows_object(state@, *f, id, *ctx),
{
    match f {
        None => true,
        Some(filter) => match filter {
            TargetFilter::Any => true,
            _ => matches_target_filter(state, id, filter, ctx),
        },
    }
}

/// Whether an optional filter lets a player through.
pub open spec fn allows_player(
    f: Option<TargetFilter>,
    player: PlayerId,
    ctx: FilterContext,
) -> bool {
    match f {
        None => true,
        Some(filter) => player_matches(player, filter, ctx),
    }
}

pub fn player_allowed(f: &Option<TargetFilter>, player: PlayerId, ctx: &FilterContext) -> (r: bool)
    ensures
        r == allows_player(*f, player, *ctx),
{
    match f {
        None => true,
        Some(filter) => matches_player(player, filter, ctx),
    }
}

/// What an attacker attacks, as the declaration tells.
pub open spec fn attack_of(attacks: List<(ObjectId, AttackTarget)>, id: ObjectId) -> Option<
    AttackTarget,
>
    decreases attacks,
{
    match attacks.node {
        None => None,
        Some(n) => if n.item.0 == id {
            Some(n.item.1)
        } else {
            attack_of(n.rest, id)
        },
    }
}

fn find_attack(attacks: &List<(ObjectId, AttackTarget)>, id: ObjectId) -> (r: Option<AttackTarget>)
    ensures
        r == attack_of(*attacks, id),
    decreases attacks,
{
    match &attacks.node {
        None => None,
        Some(n) => if n.item.0 == id {
            Some(n.item.1)
        } else {
            find_attack(&n.rest, id)
        },
    }
}

/// Whether an attack goes where the trigger asks. An attack of which no more is told goes to
/// the defending player.
pub open spec fn attack_target_allowed(
    filter: Option<AttackTargetFilter>,
    target: Option<AttackTarget>,
) -> bool {
    match filter {
        None => true,
        Some(AttackTargetFilter::Player) => target is None || target->0 is Player,
        Some(AttackTargetFilter::Planeswalker) => target is Some && target->0 is Planeswalker,
        Some(AttackTargetFilter::Battle) => target is Some && target->0 is Battle,
    }
}

fn check_attack_target(
    filter: Option<AttackTargetFilter>,
    target: Option<AttackTarget>,
) -> (r: bool)
    ensures
        r == attack_target_allowed(filter, target),
{
    match filter {
        None => true,
        Some(AttackTargetFilter::Player) => match target {
            None => true,
            Some(AttackTarget::Player(_)) => true,
            _ => false,
        },
        Some(AttackTargetFilter::Planeswalker) => match target {
            Some(AttackTarget::Planeswalker(_)) => true,
            _ => false,
        },
        Some(AttackTargetFilter::Battle) => match target {
            Some(AttackTarget::Battle(_)) => true,
            _ => false,
        },
    }
}

/// Whether one attacker sets the trigger off.
pub open spec fn attacker_matches(
    g: Game,
    id: ObjectId,
    attacks: List<(ObjectId, AttackTarget)>,
    def: TriggerDefinition,
    ctx: FilterContext,
) -> bool {
    allows_object(g, def.valid_card, id, ctx) && attack_target_allowed(
        def.attack_target_filter,
        attack_of(attacks, id),
    )
}

fn check_attacker(
    state: &GameState,
    id: ObjectId,
    attacks: &List<(ObjectId, AttackTarget)>,
    def: &TriggerDefinition,
    ctx: &FilterContext,
) -> (r: bool)
    ensures
        r == attacker_matches(state@, id, *attacks, *def, *ctx),
{
    object_allowed(state, &def.valid_card, id, ctx) && check_attack_target(
        def.attack_target_filter,
        find_attack(attacks, id),
    )
}

pub open spec fn any_attacker_matches(
    g: Game,
    ids: List<ObjectId>,
    attacks: List<(ObjectId, AttackTarget)>,
    def: TriggerDefinition,
    ctx: FilterContext,
) -> bool
    decreases ids,
{
    match ids.node {
        None => false,
        Some(n) => attacker_matches(g, *n.item, attacks, def, ctx) || any_attacker_matches(
            g,
            n.rest,
            attacks,
            def,
            ctx,
        ),
    }
}

fn find_matching_attacker(
    state: &GameState,
    ids: &List<ObjectId>,
    attacks: &List<(ObjectId, AttackTarget)>,
    def: &TriggerDefinition,
    ctx: &FilterContext,
) -> (r: bool)
    ensures
        r == any_attacker_matches(state@, *ids, *attacks, *def, *ctx),
    decreases ids,
{
    match &ids.node {
        None => false,
        Some(n) => check_attacker(state, *n.item, attacks, def, ctx) || find_matching_attacker(
            state,
            &n.rest,
            attacks,
            def,
            ctx,
        ),
    }
}

/// Whether one of the sources of combat damage passes the trigger's filter for sources.
pub open spec fn any_source_allowed(
    g: Game,
    amounts: List<(ObjectId, u32)>,
    f: Option<TargetFilter>,
    ctx: FilterContext,
) -> bool
    decreases amounts,
{
    match amounts.node {
        None => false,
        Some(n) => allows_object(g, f, n.item.0, ctx) || any_source_allowed(g, n.rest, f, ctx),
    }
}

fn find_allowed_source(
    state: &GameState,
    amounts: &List<(ObjectId, u32)>,
    f: &Option<TargetFilter>,
    ctx: &FilterContext,
) -> (r: bool)
    ensures
        r == any_source_allowed(state@, *amounts, *f, *ctx),
    decreases amounts,
{
    match &amounts.node {
        None => false,
        Some(n) => object_allowed(state, f, n.item.0, ctx) || find_allowed_source(
            state,
            &n.rest,
            f,
            ctx,
        ),
    }
}

pub open spec fn damage_target_allowed(
    g: Game,
    f: Option<TargetFilter>,
    target: TargetRef,
    ctx: FilterContext,
) -> bool {
    match target {
        TargetRef::Object(id) => allows_object(g, f, id, ctx),
        TargetRef::Player(p) => allows_player(f, p, ctx),
    }
}

/// Whether an event is one that the triggered ability of `source_id` watches for. State
/// triggers, and the triggers that keywords bring with them, watch for no event.
pub open spec fn trigger_matches(
    g: Game,
    event: GameEvent,
    def: TriggerDefinition,
    source_id: ObjectId,
) -> bool {
    let ctx = source_context(g, source_id);
    match (def.mode, event) {
        (TriggerMode::ChangesZone, GameEvent::ZoneChanged { object_id, from, to, record }) => {
            &&& def.origin is None || from == def.origin
            &&& def.destination is None || Some(to) == def.destination
            &&& match def.valid_card {
                None => true,
                Some(f) => subject_matches(g, moved_subject(g, object_id, to, *record), f, ctx),
            }
        },
        (TriggerMode::SpellCast, GameEvent::SpellCast { controller, object_id, .. }) =>
            allows_object(g, def.valid_card, object_id, ctx) && allows_player(
                def.valid_target,
                controller,
                ctx,
            ),
        (TriggerMode::Attacks, GameEvent::AttackersDeclared { attacker_ids, attacks, .. }) =>
            any_attacker_matches(g, attacker_ids, attacks, def, ctx),
        (TriggerMode::DamageDone, GameEvent::DamageDealt { source_id: dealer, target, .. }) =>
            allows_object(g, def.valid_source, dealer, ctx) && damage_target_allowed(
                g,
                def.valid_target,
                target,
                ctx,
            ),
        (
            TriggerMode::DamageDoneOnceByController,
            GameEvent::CombatDamageDealtToPlayer { player_id, source_amounts, .. },
        ) => any_source_allowed(g, source_amounts, def.valid_source, ctx) && allows_player(
            def.valid_target,
            player_id,
            ctx,
        ),
        (TriggerMode::Sacrificed, GameEvent::PermanentSacrificed { object_id, player_id }) =>
            allows_object(g, def.valid_card, object_id, ctx) && allows_player(
                def.valid_target,
                player_id,
                ctx,
            ),
        (TriggerMode::CommitCrime, GameEvent::CrimeCommitted { player_id }) => ctx.controller
            == Some(player_id),
        (TriggerMode::Drawn, GameEvent::CardDrawn { player_id, object_id, .. }) => allows_object(
            g,
            def.valid_card,
            object_id,
            ctx,
        ) && allows_player(def.valid_target, player_id, ctx),
        (TriggerMode::TokenCreated, GameEvent::TokenCreated { object_id, .. }) => g.object(
            object_id,
        ) matches Some(token) && allows_object(g, def.valid_card, object_id, ctx)
            && allows_player(def.valid_target, token.controller, ctx),
        (TriggerMode::DiscardedAll, GameEvent::Discarded { player_id, object_id }) =>
            allows_object(g, def.valid_card, object_id, ctx) && allows_player(
                def.valid_target,
                player_id,
                ctx,
            ),
        (
            TriggerMode::TapsForMana,
            GameEvent::ManaAdded { player_id, source_id: tapped, tapped_for_mana, .. },
        ) => tapped_for_mana && allows_object(g, def.valid_card, tapped, ctx) && allows_player(
            def.valid_target,
            player_id,
            ctx,
        ),
        (TriggerMode::BecomesTarget, GameEvent::BecomesTarget { object_id, .. }) =>
            match def.valid_card {
                None => object_id == source_id,
                Some(_) => allows_object(g, def.valid_card, object_id, ctx),
            },
        (TriggerMode::Phase, GameEvent::PhaseChanged { phase }) => (def.phase is None || def.phase
            == Some(phase)) && allows_player(def.valid_target, g.active_player, ctx),
        (TriggerMode::SaddlesOrCrews, GameEvent::VehicleCrewed { vehicle_id, creatures }) =>
            match def.valid_card {
                None => vehicle_id == source_id || creatures@.contains(source_id),
                Some(_) => allows_object(g, def.valid_card, vehicle_id, ctx),
            },
        (TriggerMode::LifeLost, GameEvent::LifeChanged { player_id, amount }) => amount < 0
            && allows_player(def.valid_target, player_id, ctx),
        _ => false,
    }
}

pub fn matches_trigger(
    event: &GameEvent,
    def: &TriggerDefinition,
    source_id: ObjectId,
    state: &GameState,
) -> (r: bool)
    ensures
        r == trigger_matches(state@, *event, *def, source_id),
{
    let ctx = FilterContext::from_source(state, source_id);
    match (def.mode, event) {
        (TriggerMode::ChangesZone, GameEvent::ZoneChanged { object_id, from, to, record }) => (
        def.origin.is_none() || *from == def.origin) && (def.destination.is_none() || Some(*to)
            == def.destination) && match &def.valid_card {
            None => true,
            Some(f) => matches_subject(
                state,
                &subject_of_move(state, *object_id, *to, record),
                f,
                &ctx,
            ),
        },
        (TriggerMode::SpellCast, GameEvent::SpellCast { controller, object_id, .. }) =>
            object_allowed(state, &def.valid_card, *object_id, &ctx) && player_allowed(
                &def.valid_target,
                *controller,
                &ctx,
            ),
        (TriggerMode::Attacks, GameEvent::AttackersDeclared { attacker_ids, attacks, .. }) =>
            find_matching_attacker(state, attacker_ids, attacks, def, &ctx),
        (TriggerMode::DamageDone, GameEvent::DamageDealt { source_id: dealer, target, .. }) =>
            object_allowed(state, &def.valid_source, *dealer, &ctx) && match target {
                TargetRef::Object(id) => object_allowed(state, &def.valid_target, *id, &ctx),
                TargetRef::Player(p) => player_allowed(&def.valid_target, *p, &ctx),
            },
        (
            TriggerMode::DamageDoneOnceByController,
            GameEvent::CombatDamageDealtToPlayer { player_id, source_amounts, .. },
        ) => find_allowed_source(state, source_amounts, &def.valid_source, &ctx) && player_allowed(
            &def.valid_target,
            *player_id,
            &ctx,
        ),
        (TriggerMode::Sacrificed, GameEvent::PermanentSacrificed { object_id, player_id }) =>
            object_allowed(state, &def.valid_card, *object_id, &ctx) && player_allowed(
                &def.valid_target,
                *player_id,
                &ctx,
            ),
        (TriggerMode::CommitCrime, GameEvent::CrimeCommitted { player_id }) => ctx.controller
            == Some(*player_id),
        (TriggerMode::Drawn, GameEvent::CardDrawn { player_id, object_id, .. }) => object_allowed(
            state,
            &def.valid_card,
            *object_id,
            &ctx,
        ) && player_allowed(&def.valid_target, *player_id, &ctx),
        (TriggerMode::TokenCreated, GameEvent::TokenCreated { object_id, .. }) =>
            match state.objects.get(object_id) {
                None => false,
                Some(token) => object_allowed(state, &def.valid_card, *object_id, &ctx)
                    && player_allowed(&def.valid_target, token.controller, &ctx),
            },
        (TriggerMode::DiscardedAll, GameEvent::Discarded { player_id, object_id }) =>
            object_allowed(state, &def.valid_card, *object_id, &ctx) && player_allowed(
                &def.valid_target,
                *player_id,
                &ctx,
            ),
        (
            TriggerMode::TapsForMana,
            GameEvent::ManaAdded { player_id, source_id: tapped, tapped_for_mana, .. },
        ) => *tapped_for_mana && object_allowed(state, &def.valid_card, *tapped, &ctx)
            && player_allowed(&def.valid_target, *player_id, &ctx),
        (TriggerMode::BecomesTarget, GameEvent::BecomesTarget { object_id, .. }) =>
            match &def.valid_card {
                None => *object_id == source_id,
                Some(_) => object_allowed(state, &def.valid_card, *object_id, &ctx),
            },
        (TriggerMode::Phase, GameEvent::PhaseChanged { phase }) => (def.phase.is_none()
            || def.phase == Some(*phase)) && player_allowed(
            &def.valid_target,
            state.active_player,
            &ctx,
        ),
        (TriggerMode::SaddlesOrCrews, GameEvent::VehicleCrewed { vehicle_id, creatures }) =>
            match &def.valid_card {
                None => *vehicle_id == source_id || creatures.contains(&source_id),
                Some(_) => object_allowed(state, &def.valid_card, *vehicle_id, &ctx),
            },
        (TriggerMode::LifeLost, GameEvent::LifeChanged { player_id, amount }) => *amount < 0
            && player_allowed(&def.valid_target, *player_id, &ctx),
        _ => false,
    }
}

/// A declaration that tells of one attacker alone.
pub open spec fn attack_event(
    id: ObjectId,
    defending_player: PlayerId,
    attacks: List<(ObjectId, AttackTarget)>,
) -> GameEvent {
    GameEvent::AttackersDeclared {
        attacker_ids: list_of(seq![id]),
        defending_player,
        attacks: match attack_of(attacks, id) {
            None => list_of(seq![]),
            Some(target) => list_of(seq![(id, target)]),
        },
    }
}

pub open spec fn attack_events_of(
    g: Game,
    ids: List<ObjectId>,
    defending_player: PlayerId,
    attacks: List<(ObjectId, AttackTarget)>,
    def: TriggerDefinition,
    ctx: FilterContext,
) -> Seq<GameEvent>
    decreases ids,
{
    match ids.node {
        None => seq![],
        Some(n) => {
            let rest = attack_events_of(g, n.rest, defending_player, attacks, def, ctx);
            if attacker_matches(g, *n.item, attacks, def, ctx) {
                seq![attack_event(*n.item, defending_player, attacks)] + rest
            } else {
                rest
            }
        },
    }
}

/// One event for each attacker that sets the trigger off (CR 603.2c, CR 508.3a).
pub open spec fn attack_events(
    g: Game,
    event: GameEvent,
    def: TriggerDefinition,
    source_id: ObjectId,
) -> Seq<GameEvent> {
    match event {
        GameEvent::AttackersDeclared { attacker_ids, defending_player, attacks } =>
            attack_events_of(
                g,
                attacker_ids,
                defending_player,
                attacks,
                def,
                source_context(g, source_id),
            ),
        _ => seq![],
    }
}

fn push_attack_events(
    state: &GameState,
    ids: &List<ObjectId>,
    defending_player: PlayerId,
    attacks: &List<(ObjectId, AttackTarget)>,
    def: &TriggerDefinition,
    ctx: &FilterContext,
    out: &mut Vec<GameEvent>,
)
    ensures
        final(out)@ == old(out)@ + attack_events_of(
            state@,
            *ids,
            defending_player,
            *attacks,
            *def,
            *ctx,
        ),
    decreases ids,
{
    match &ids.node {
        None => {
            assert(out@ =~= old(out)@ + Seq::<GameEvent>::empty());
        },
        Some(n) => {
            if check_attacker(state, *n.item, attacks, def, ctx) {
                out.push(
                    GameEvent::AttackersDeclared {
                        attacker_ids: List::one(*n.item),
                        defending_player,
                        attacks: match find_attack(attacks, *n.item) {
                            None => List::new(),
                            Some(target) => List::one((*n.item, target)),
                        },
                    },
                );
            }
            push_attack_events(state, &n.rest, defending_player, attacks, def, ctx, out);
            assert(out@ =~= old(out)@ + attack_events_of(
                state@,
                *ids,
                defending_player,
                *attacks,
                *def,
                *ctx,
            ));
        },
    }
}

pub fn matching_attack_events(
    event: &GameEvent,
    def: &TriggerDefinition,
    source_id: ObjectId,
    state: &GameState,
) -> (r: Vec<GameEvent>)
    ensures
        r@ == attack_events(state@, *event, *def, source_id),
{
    let mut out: Vec<GameEvent> = Vec::new();
    if let GameEvent::AttackersDeclared { attacker_ids, defending_player, attacks } = event {
        let ctx = FilterContext::from_source(state, source_id);
        push_attack_events(state, attacker_ids, *defending_player, attacks, def, &ctx, &mut out);
    }
    assert(out@ =~= attack_events(state@, *event, *def, source_id));
    out
}

} // verus!
