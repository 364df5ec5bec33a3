//! The numbers that card text refers to.

use crate::ability::{
    AggregateFunction, CastManaObjectScope, CountScope, PlayerScope, QuantityExpr, QuantityRef,
    TargetFilter,
};
use crate::events::GameEvent;
use crate::filter::{
    cast_matches, event_object, matches_target_filter, object_matches, object_of_event,
    spell_record_matches_filter, FilterContext,
};
use crate::ids::{AttackTarget, ObjectId, PlayerId, TargetRef};
use crate::list::List;
use crate::object::{capped, Player, SpellCastRecord};
use crate::state::{Game, GameState};
use vstd::prelude::*;

verus! {

/// What of a player a quantity reads.
#[derive(Clone, Copy)]
pub enum PlayerStat {
    Life,
    Discards,
}

pub open spec fn stat_of(p: Player, stat: PlayerStat) -> int {
    match stat {
        PlayerStat::Life => p.life as int,
        PlayerStat::Discards => p.cards_discarded_this_turn as int,
    }
}

fn read_stat(p: &Player, stat: PlayerStat) -> (r: i128)
    ensures
        r == stat_of(*p, stat),
        -0x8000_0000 <= r <= 0xffff_ffff,
{
    match stat {
        PlayerStat::Life => p.life as i128,
        PlayerStat::Discards => p.cards_discarded_this_turn as i128,
    }
}

/// Whether a player is a living opponent of `you`.
pub open spec fn is_opponent(p: Player, you: PlayerId) -> bool {
    p.id != you && !p.is_eliminated
}

/// A number of the first `n` players' opponents taken together: their sum, or the largest or
/// smallest, where no opponent counts as `None`.
pub open spec fn opponents_stat(
    players: Seq<Player>,
    you: PlayerId,
    stat: PlayerStat,
    function: AggregateFunction,
    n: nat,
) -> Option<int>
    decreases n,
{
    if n == 0 {
        None
    } else {
        let before = opponents_stat(players, you, stat, function, (n - 1) as nat);
        let p = players[n - 1];
        if !is_opponent(p, you) {
            before
        } else {
            match before {
                None => Some(stat_of(p, stat)),
                Some(so_far) => Some(
                    match function {
                        AggregateFunction::Sum => so_far + stat_of(p, stat),
                        AggregateFunction::Max => if stat_of(p, stat) > so_far {
                            stat_of(p, stat)
                        } else {
                            so_far
                        },
                        AggregateFunction::Min => if stat_of(p, stat) < so_far {
                            stat_of(p, stat)
                        } else {
                            so_far
                        },
                    },
                ),
            }
        }
    }
}

fn read_opponents(
    state: &GameState,
    you: PlayerId,
    stat: PlayerStat,
    function: AggregateFunction,
) -> (r: i128)
    ensures
        r == match opponents_stat(
            state@.players,
            you,
            stat,
            function,
            state@.players.len(),
        ) {
            None => 0,
            Some(n) => n,
        },
{
    let mut total: Option<i128> = None;
    let mut i: usize = 0;
    while i < state.players.len()
        invariant
            i <= state.players@.len(),
            match opponents_stat(state.players@, you, stat, function, i as nat) {
                None => total is None,
                Some(n) => total is Some && total->0 == n && -0x1_0000_0000 * i <= n
                    <= 0x1_0000_0000 * i,
            },
        decreases state.players@.len() - i,
    {
        let p = &state.players[i];
        if p.id != you && !p.is_eliminated {
            let value: i128 = read_stat(p, stat);
            total = match total {
                None => Some(value),
                Some(so_far) => Some(
                    match function {
                        AggregateFunction::Sum => so_far + value,
                        AggregateFunction::Max => if value > so_far {
                            value
                        } else {
                            so_far
                        },
                        AggregateFunction::Min => if value < so_far {
                            value
                        } else {
                            so_far
                        },
                    },
                ),
            };
        }
        i = i + 1;
    }
    match total {
        None => 0,
        Some(n) => n,
    }
}

/// The player that `attacker` attacks in the given attacks, where it attacks one.
pub open spec fn attacked_player(
    attacks: List<(ObjectId, AttackTarget)>,
    attacker: ObjectId,
) -> Option<PlayerId>
    decreases attacks,
{
    match attacks.node {
        None => None,
        Some(n) => match n.item.1 {
            AttackTarget::Player(p) if n.item.0 == attacker => Some(p),
            _ => attacked_player(n.rest, attacker),
        },
    }
}

fn find_attacked(attacks: &List<(ObjectId, AttackTarget)>, attacker: ObjectId) -> (r: Option<
    PlayerId,
>)
    ensures
        r == attacked_player(*attacks, attacker),
    decreases attacks,
{
    match &attacks.node {
        None => None,
        Some(n) => match n.item.1 {
            AttackTarget::Player(p) if n.item.0 == attacker => Some(p),
            _ => find_attacked(&n.rest, attacker),
        },
    }
}

/// The defending player of an attack trigger: the player that the source attacks, else the
/// defending player of the attack (CR 506.2).
pub open spec fn defending_player(source: ObjectId, event: Option<GameEvent>) -> Option<PlayerId> {
    match event {
        Some(GameEvent::AttackersDeclared { defending_player, attacks, .. }) => match attacked_player(
            attacks,
            source,
        ) {
            Some(p) => Some(p),
            None => Some(defending_player),
        },
        _ => None,
    }
}

fn find_defender(source: ObjectId, event: Option<&GameEvent>) -> (r: Option<PlayerId>)
    ensures
        r == defending_player(source, opt_event(event)),
{
    match event {
        Some(GameEvent::AttackersDeclared { defending_player, attacks, .. }) => match find_attacked(
            attacks,
            source,
        ) {
            Some(p) => Some(p),
            None => Some(*defending_player),
        },
        _ => None,
    }
}

/// An optional reference to an event, as an optional event.
pub open spec fn opt_event(event: Option<&GameEvent>) -> Option<GameEvent> {
    match event {
        None => None,
        Some(e) => Some(*e),
    }
}

/// A number of the players in a scope.
pub open spec fn scoped_stat(
    g: Game,
    stat: PlayerStat,
    scope: PlayerScope,
    controller: PlayerId,
    source: ObjectId,
    event: Option<GameEvent>,
) -> int {
    match scope {
        PlayerScope::Controller => player_stat(g, Some(controller), stat),
        PlayerScope::Opponent { aggregate } => match opponents_stat(
            g.players,
            controller,
            stat,
            aggregate,
            g.players.len(),
        ) {
            None => 0,
            Some(n) => n,
        },
        PlayerScope::DefendingPlayer => player_stat(g, defending_player(source, event), stat),
    }
}

pub open spec fn player_stat(g: Game, player: Option<PlayerId>, stat: PlayerStat) -> int {
    match player {
        None => 0,
        Some(id) => match g.player(id) {
            None => 0,
            Some(p) => stat_of(p, stat),
        },
    }
}

fn read_player(state: &GameState, player: Option<PlayerId>, stat: PlayerStat) -> (r: i128)
    ensures
        r == player_stat(state@, player, stat),
{
    match player {
        None => 0,
        Some(id) => match state.get_player(id) {
            None => 0,
            Some(p) => read_stat(p, stat),
        },
    }
}

fn read_scope(
    state: &GameState,
    stat: PlayerStat,
    scope: PlayerScope,
    controller: PlayerId,
    source: ObjectId,
    event: Option<&GameEvent>,
) -> (r: i128)
    ensures
        r == scoped_stat(state@, stat, scope, controller, source, opt_event(event)),
{
    match scope {
        PlayerScope::Controller => read_player(state, Some(controller), stat),
        PlayerScope::Opponent { aggregate } => read_opponents(state, controller, stat, aggregate),
        PlayerScope::DefendingPlayer => read_player(state, find_defender(source, event), stat),
    }
}

/// The spells that a player has cast this turn, from the `n`th history on.
pub open spec fn spells_from(
    histories: Seq<crate::state::CastHistory>,
    player: PlayerId,
    n: nat,
) -> Option<List<SpellCastRecord>>
    decreases histories.len() - n,
{
    if n >= histories.len() {
        None
    } else if histories[n as int].player == player {
        Some(histories[n as int].spells)
    } else {
        spells_from(histories, player, n + 1)
    }
}

/// The spells that a player has cast this turn.
pub open spec fn spells_cast_by(g: Game, player: PlayerId) -> Option<List<SpellCastRecord>> {
    spells_from(g.spells_cast_this_turn_by_player, player, 0)
}

pub fn find_spells_cast(state: &GameState, player: PlayerId) -> (r: Option<&List<SpellCastRecord>>)
    ensures
        match r {
            None => spells_cast_by(state@, player) is None,
            Some(spells) => spells_cast_by(state@, player) == Some(*spells),
        },
{
    let mut i: usize = 0;
    while i < state.spells_cast_this_turn_by_player.len()
        invariant
            i <= state.spells_cast_this_turn_by_player@.len(),
            spells_cast_by(state@, player) == spells_from(
                state.spells_cast_this_turn_by_player@,
                player,
                i as nat,
            ),
        decreases state.spells_cast_this_turn_by_player@.len() - i,
    {
        if state.spells_cast_this_turn_by_player[i].player == player {
            return Some(&state.spells_cast_this_turn_by_player[i].spells);
        }
        i = i + 1;
    }
    None
}

/// How many of the spells that `caster` cast a filter lets through.
pub open spec fn count_casts(
    g: Game,
    spells: List<SpellCastRecord>,
    filter: Option<TargetFilter>,
    caster: PlayerId,
) -> nat
    decreases spells,
{
    match spells.node {
        None => 0,
        Some(n) => (if filter is None || cast_matches(g, *n.item, filter->0, caster) {
            1nat
        } else {
            0nat
        }) + count_casts(g, n.rest, filter, caster),
    }
}

/// How many of the spells a filter lets through, capped at the largest `u32`.
pub fn number_of_casts(
    state: &GameState,
    spells: &List<SpellCastRecord>,
    filter: &Option<TargetFilter>,
    caster: PlayerId,
) -> (r: u32)
    ensures
        r == capped(count_casts(state@, *spells, *filter, caster)),
    decreases spells,
{
    match &spells.node {
        None => 0,
        Some(n) => {
            let rest: u32 = number_of_casts(state, &n.rest, filter, caster);
            let counts: bool = match filter {
                None => true,
                Some(f) => spell_record_matches_filter(state, &n.item, f, caster),
            };
            if counts && rest < u32::MAX {
                rest + 1
            } else {
                rest
            }
        },
    }
}

/// How many spells that a filter lets through the first `n` histories hold.
pub open spec fn count_all_casts(
    g: Game,
    filter: Option<TargetFilter>,
    n: nat,
) -> int
    decreases n,
{
    if n == 0 {
        0
    } else {
        let h = g.spells_cast_this_turn_by_player[n - 1];
        count_all_casts(g, filter, (n - 1) as nat) + capped(
            count_casts(g, h.spells, filter, h.player),
        )
    }
}

fn number_of_all_casts(state: &GameState, filter: &Option<TargetFilter>) -> (r: i128)
    ensures
        r == count_all_casts(state@, *filter, state@.spells_cast_this_turn_by_player.len()),
{
    let mut total: i128 = 0;
    let mut i: usize = 0;
    while i < state.spells_cast_this_turn_by_player.len()
        invariant
            i <= state.spells_cast_this_turn_by_player@.len(),
            total == count_all_casts(state@, *filter, i as nat),
            0 <= total <= i * 0x1_0000_0000,
        decreases state.spells_cast_this_turn_by_player@.len() - i,
    {
        let h = &state.spells_cast_this_turn_by_player[i];
        let more: u32 = number_of_casts(state, &h.spells, filter, h.player);
        total = total + more as i128;
        i = i + 1;
    }
    total
}

/// How many of the first `n` permanents a filter lets through.
pub open spec fn count_permanents(g: Game, filter: TargetFilter, ctx: FilterContext, n: nat) -> nat
    decreases n,
{
    if n == 0 {
        0
    } else {
        count_permanents(g, filter, ctx, (n - 1) as nat) + (if object_matches(
            g,
            g.battlefield[n - 1],
            filter,
            ctx,
        ) {
            1nat
        } else {
            0nat
        })
    }
}

fn number_of_permanents(state: &GameState, filter: &TargetFilter, ctx: &FilterContext) -> (r: usize)
    ensures
        r == count_permanents(state@, *filter, *ctx, state@.battlefield.len()),
{
    let mut count: usize = 0;
    let mut i: usize = 0;
    while i < state.battlefield.len()
        invariant
            i <= state.battlefield@.len(),
            count <= i,
            count == count_permanents(state@, *filter, *ctx, i as nat),
        decreases state.battlefield@.len() - i,
    {
        if matches_target_filter(state, state.battlefield[i], filter, ctx) {
            count = count + 1;
        }
        i = i + 1;
    }
    count
}

/// The power of the object under the given identifier, or 0.
pub open spec fn power_of(g: Game, id: ObjectId) -> int {
    match g.object(id) {
        None => 0,
        Some(o) => match o.power {
            None => 0,
            Some(p) => p as int,
        },
    }
}

fn read_power(state: &GameState, id: ObjectId) -> (r: i128)
    ensures
        r == power_of(state@, id),
{
    match state.objects.get(&id) {
        None => 0,
        Some(o) => match o.power {
            None => 0,
            Some(p) => p as i128,
        },
    }
}

pub open spec fn toughness_of(g: Game, id: ObjectId) -> int {
    match g.object(id) {
        None => 0,
        Some(o) => match o.toughness {
            None => 0,
            Some(p) => p as int,
        },
    }
}

fn read_toughness(state: &GameState, id: ObjectId) -> (r: i128)
    ensures
        r == toughness_of(state@, id),
{
    match state.objects.get(&id) {
        None => 0,
        Some(o) => match o.toughness {
            None => 0,
            Some(p) => p as i128,
        },
    }
}

/// The amount that an event carries, where it carries one.
pub open spec fn event_amount(event: GameEvent) -> Option<int> {
    match event {
        GameEvent::DamageDealt { amount, .. } => Some(amount as int),
        GameEvent::CombatDamageDealtToPlayer { total_damage, .. } => Some(total_damage as int),
        GameEvent::DamagePrevented { amount, .. } => Some(amount as int),
        GameEvent::CounterAdded { count, .. } => Some(count as int),
        GameEvent::LifeChanged { amount, .. } => Some(
            if amount < 0 {
                -amount
            } else {
                amount as int
            },
        ),
        _ => None,
    }
}

fn amount_of_event(event: &GameEvent) -> (r: Option<i128>)
    ensures
        match r {
            None => event_amount(*event) is None,
            Some(n) => event_amount(*event) == Some(n as int),
        },
{
    match event {
        GameEvent::DamageDealt { amount, .. } => Some(*amount as i128),
        GameEvent::CombatDamageDealtToPlayer { total_damage, .. } => Some(*total_damage as i128),
        GameEvent::DamagePrevented { amount, .. } => Some(*amount as i128),
        GameEvent::CounterAdded { count, .. } => Some(*count as i128),
        GameEvent::LifeChanged { amount, .. } => {
            let n: i128 = *amount as i128;
            Some(
                if n < 0 {
                    -n
                } else {
                    n
                },
            )
        },
        _ => None,
    }
}

/// The context in which a trigger's condition counts objects.
pub open spec fn check_context(
    controller: PlayerId,
    source: ObjectId,
    event: Option<GameEvent>,
) -> FilterContext {
    FilterContext {
        source_id: source,
        controller: Some(controller),
        trigger_object: match event {
            None => None,
            Some(e) => event_object(e),
        },
    }
}

pub open spec fn quantity_ref(
    g: Game,
    qty: QuantityRef,
    controller: PlayerId,
    source: ObjectId,
    event: Option<GameEvent>,
) -> int {
    match qty {
        QuantityRef::LifeTotal { player } => scoped_stat(
            g,
            PlayerStat::Life,
            player,
            controller,
            source,
            event,
        ),
        QuantityRef::CardsDiscardedThisTurn { player } => scoped_stat(
            g,
            PlayerStat::Discards,
            player,
            controller,
            source,
            event,
        ),
        QuantityRef::LifeAboveStarting => player_stat(g, Some(controller), PlayerStat::Life)
            - g.format_config.starting_life,
        QuantityRef::ManaSpentToCast { scope } => {
            let id = match scope {
                CastManaObjectScope::SelfObject => Some(source),
                CastManaObjectScope::TriggeringSpell => match event {
                    None => None,
                    Some(e) => event_object(e),
                },
            };
            match id {
                None => 0,
                Some(spell) => match g.object(spell) {
                    None => 0,
                    Some(o) => o.mana_spent_to_cast_amount as int,
                },
            }
        },
        QuantityRef::SourcePower => power_of(g, source),
        QuantityRef::SourceToughness => toughness_of(g, source),
        QuantityRef::SpellsCastThisTurn { scope, filter } => match scope {
            CountScope::Controller => match spells_cast_by(g, controller) {
                None => 0,
                Some(spells) => capped(count_casts(g, spells, filter, controller)) as int,
            },
            CountScope::All => count_all_casts(
                g,
                filter,
                g.spells_cast_this_turn_by_player.len(),
            ),
        },
        QuantityRef::ObjectCount { filter } => count_permanents(
            g,
            filter,
            check_context(controller, source, event),
            g.battlefield.len(),
        ) as int,
        QuantityRef::EventContextAmount => match event {
            Some(e) if event_amount(e) is Some => event_amount(e)->0,
            _ => match g.last_effect_count {
                None => 0,
                Some(n) => n as int,
            },
        },
        QuantityRef::EventContextSourcePower => match event {
            None => 0,
            Some(e) => match event_object(e) {
                None => 0,
                Some(id) => power_of(g, id),
            },
        },
    }
}

/// The number that an expression stands for.
pub open spec fn quantity(
    g: Game,
    expr: QuantityExpr,
    controller: PlayerId,
    source: ObjectId,
    event: Option<GameEvent>,
) -> int {
    match expr {
        QuantityExpr::Fixed { value } => value as int,
        QuantityExpr::Ref { qty } => quantity_ref(g, qty, controller, source, event),
    }
}

pub fn resolve_quantity_for_trigger_check(
    state: &GameState,
    expr: &QuantityExpr,
    controller: PlayerId,
    source: ObjectId,
    event: Option<&GameEvent>,
) -> (r: i128)
    ensures
        r == quantity(state@, *expr, controller, source, opt_event(event)),
{
    match expr {
        QuantityExpr::Fixed { value } => *value as i128,
        QuantityExpr::Ref { qty } => match qty {
            QuantityRef::LifeTotal { player } => read_scope(
                state,
                PlayerStat::Life,
                *player,
                controller,
                source,
                event,
            ),
            QuantityRef::CardsDiscardedThisTurn { player } => read_scope(
                state,
                PlayerStat::Discards,
                *player,
                controller,
                source,
                event,
            ),
            QuantityRef::LifeAboveStarting => match state.get_player(controller) {
                None => 0 - state.format_config.starting_life as i128,
                Some(p) => p.life as i128 - state.format_config.starting_life as i128,
            },
            QuantityRef::ManaSpentToCast { scope } => {
                let id = match scope {
                    CastManaObjectScope::SelfObject => Some(source),
                    CastManaObjectScope::TriggeringSpell => match event {
                        None => None,
                        Some(e) => object_of_event(e),
                    },
                };
                match id {
                    None => 0,
                    Some(spell) => match state.objects.get(&spell) {
                        None => 0,
                        Some(o) => o.mana_spent_to_cast_amount as i128,
                    },
                }
            },
            QuantityRef::SourcePower => read_power(state, source),
            QuantityRef::SourceToughness => read_toughness(state, source),
            QuantityRef::SpellsCastThisTurn { scope, filter } => match scope {
                CountScope::Controller => match find_spells_cast(state, controller) {
                    None => 0,
                    Some(spells) => number_of_casts(state, spells, filter, controller) as i128,
                },
                CountScope::All => number_of_all_casts(state, filter),
            },
            QuantityRef::ObjectCount { filter } => {
                let ctx = FilterContext {
                    source_id: source,
                    controller: Some(controller),
                    trigger_object: match event {
                        None => None,
                        Some(e) => object_of_event(e),
                    },
                };
                number_of_permanents(state, filter, &ctx) as i128
            },
            QuantityRef::EventContextAmount => {
                let carried = match event {
                    None => None,
                    Some(e) => amount_of_event(e),
                };
                match carried {
                    Some(n) => n,
                    None => match state.last_effect_count {
                        None => 0,
                        Some(n) => n as i128,
                    },
                }
            },
            QuantityRef::EventContextSourcePower => match event {
                None => 0,
                Some(e) => match object_of_event(e) {
                    None => 0,
                    Some(id) => read_power(state, id),
                },
            },
        },
    }
}

/// The player that an event is about, where there is one.
pub open spec fn event_player(event: GameEvent) -> Option<PlayerId> {
    match event {
        GameEvent::SpellCast { controller, .. } => Some(controller),
        GameEvent::AttackersDeclared { defending_player, .. } => Some(defending_player),
        GameEvent::CardDrawn { player_id, .. } => Some(player_id),
        GameEvent::DamageDealt { target: TargetRef::Player(p), .. } => Some(p),
        GameEvent::CombatDamageDealtToPlayer { player_id, .. } => Some(player_id),
        GameEvent::LifeChanged { player_id, .. } => Some(player_id),
        GameEvent::ManaAdded { player_id, .. } => Some(player_id),
        GameEvent::PermanentSacrificed { player_id, .. } => Some(player_id),
        GameEvent::Discarded { player_id, .. } => Some(player_id),
        GameEvent::CrimeCommitted { player_id } => Some(player_id),
        GameEvent::RoomEntered { player_id, .. } => Some(player_id),
        GameEvent::DungeonCompleted { player_id, .. } => Some(player_id),
        GameEvent::InitiativeTaken { player_id } => Some(player_id),
        GameEvent::MonarchChanged { player_id } => Some(player_id),
        GameEvent::RingTemptsYou { player_id } => Some(player_id),
        _ => None,
    }
}

pub fn extract_player_from_event(event: &GameEvent) -> (r: Option<PlayerId>)
    ensures
        r == event_player(*event),
{
    match event {
        GameEvent::SpellCast { controller, .. } => Some(*controller),
        GameEvent::AttackersDeclared { defending_player, .. } => Some(*defending_player),
        GameEvent::CardDrawn { player_id, .. } => Some(*player_id),
        GameEvent::DamageDealt { target: TargetRef::Player(p), .. } => Some(*p),
        GameEvent::CombatDamageDealtToPlayer { player_id, .. } => Some(*player_id),
        GameEvent::LifeChanged { player_id, .. } => Some(*player_id),
        GameEvent::ManaAdded { player_id, .. } => Some(*player_id),
        GameEvent::PermanentSacrificed { player_id, .. } => Some(*player_id),
        GameEvent::Discarded { player_id, .. } => Some(*player_id),
        GameEvent::CrimeCommitted { player_id } => Some(*player_id),
        GameEvent::RoomEntered { player_id, .. } => Some(*player_id),
        GameEvent::DungeonCompleted { player_id, .. } => Some(*player_id),
        GameEvent::InitiativeTaken { player_id } => Some(*player_id),
        GameEvent::MonarchChanged { player_id } => Some(*player_id),
        GameEvent::RingTemptsYou { player_id } => Some(*player_id),
        _ => None,
    }
}

} // verus!
