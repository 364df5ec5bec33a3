//! Damage (CR 120): what a source brings to it, and what it does to players and permanents.

use crate::ability::{Keyword, StaticDefinition, StaticMode};
use crate::events::GameEvent;
use crate::filter::{source_context, FilterContext};
use crate::functioning::{is_static_active, static_applies};
use crate::id_map::at;
use crate::ids::{CoreType, CounterType, KeywordKind, ObjectId, PlayerId, TargetRef};
use crate::layers::{clamp, clamped};
use crate::list::List;
use crate::matchers::{allows_object, allows_player, object_allowed, player_allowed};
use crate::object::{capped, sat_sum, Counters, GameObject, Player};
use crate::protection::{check_protection, has_protection};
use crate::state::{DamageRecord, Game, GameState, Play};
use vstd::prelude::*;

verus! {

/// What matters of a source of damage as it deals it.
#[derive(Clone, Copy, Debug, PartialEq, Eq, Structural)]
pub struct DamageContext {
    pub source_id: ObjectId,
    pub controller: PlayerId,
    pub has_deathtouch: bool,
    pub has_lifelink: bool,
    pub has_wither: bool,
    pub has_infect: bool,
    pub toxic: u32,
}

/// The sum of the numbers of all toxic abilities (CR 702.164b).
pub open spec fn toxic_value(keywords: List<Keyword>) -> nat
    decreases keywords,
{
    match keywords.node {
        None => 0,
        Some(n) => (match *n.item {
            Keyword::Toxic(t) => t as nat,
            _ => 0nat,
        }) + toxic_value(n.rest),
    }
}

fn total_toxic(keywords: &List<Keyword>) -> (r: u32)
    ensures
        r == capped(toxic_value(*keywords)),
    decreases keywords,
{
    match &keywords.node {
        None => 0,
        Some(n) => {
            let rest: u32 = total_toxic(&n.rest);
            match &*n.item {
                Keyword::Toxic(t) => t.saturating_add(rest),
                _ => rest,
            }
        },
    }
}

impl DamageContext {
    pub open spec fn of(o: GameObject, source_id: ObjectId) -> DamageContext {
        DamageContext {
            source_id,
            controller: o.controller,
            has_deathtouch: o.has(KeywordKind::Deathtouch),
            has_lifelink: o.has(KeywordKind::Lifelink),
            has_wither: o.has(KeywordKind::Wither),
            has_infect: o.has(KeywordKind::Infect),
            toxic: capped(toxic_value(o.keywords)),
        }
    }

    pub open spec fn bare(source_id: ObjectId, controller: PlayerId) -> DamageContext {
        DamageContext {
            source_id,
            controller,
            has_deathtouch: false,
            has_lifelink: false,
            has_wither: false,
            has_infect: false,
            toxic: 0,
        }
    }

    pub fn from_source(state: &GameState, source_id: ObjectId) -> (r: Option<Self>)
        ensures
            r == (match state@.object(source_id) {
                None => None,
                Some(o) => Some(DamageContext::of(o, source_id)),
            }),
    {
        match state.objects.get(&source_id) {
            None => None,
            Some(o) => Some(
                DamageContext {
                    source_id,
                    controller: o.controller,
                    has_deathtouch: o.has_keyword(KeywordKind::Deathtouch),
                    has_lifelink: o.has_keyword(KeywordKind::Lifelink),
                    has_wither: o.has_keyword(KeywordKind::Wither),
                    has_infect: o.has_keyword(KeywordKind::Infect),
                    toxic: total_toxic(&o.keywords),
                },
            ),
        }
    }

    /// A source of which nothing is known but who controls it.
    pub fn fallback(source_id: ObjectId, controller: PlayerId) -> (r: Self)
        ensures
            r == DamageContext::bare(source_id, controller),
    {
        DamageContext {
            source_id,
            controller,
            has_deathtouch: false,
            has_lifelink: false,
            has_wither: false,
            has_infect: false,
            toxic: 0,
        }
    }
}

/// A source as it deals damage. One that is gone is controlled by whoever controlled it last, or,
/// where that is not known either, by the active player (CR 702.15c).
pub open spec fn damage_source(g: Game, source_id: ObjectId) -> DamageContext {
    match g.object(source_id) {
        Some(o) => DamageContext::of(o, source_id),
        None => DamageContext::bare(
            source_id,
            match at(g.lki_cache, source_id) {
                None => g.active_player,
                Some(known) => known.controller,
            },
        ),
    }
}

pub fn find_damage_source(state: &GameState, source_id: ObjectId) -> (r: DamageContext)
    ensures
        r == damage_source(state@, source_id),
{
    match DamageContext::from_source(state, source_id) {
        Some(ctx) => ctx,
        None => {
            let controller = match state.lki_cache.get(&source_id) {
                None => state.active_player,
                Some(known) => known.controller,
            };
            DamageContext::fallback(source_id, controller)
        },
    }
}

/// Whether there is damage to deal and something to deal it to: a player in the game, or a
/// permanent on the battlefield.
pub open spec fn can_be_dealt(g: Game, target: TargetRef, amount: u32) -> bool {
    amount > 0 && match target {
        TargetRef::Object(id) => g.on_battlefield(id),
        TargetRef::Player(id) => g.player(id) is Some,
    }
}

/// Whether damage from a source is prevented by the protection of the permanent that it would be
/// dealt to (CR 702.16e).
pub open spec fn protected(g: Game, source: ObjectId, target: TargetRef) -> bool {
    match target {
        TargetRef::Player(_) => false,
        TargetRef::Object(id) => has_protection(g, id, source),
    }
}

fn check_protected(state: &GameState, source: ObjectId, target: TargetRef) -> (r: bool)
    ensures
        r == protected(state@, source, target),
{
    match target {
        TargetRef::Player(_) => false,
        TargetRef::Object(id) => check_protection(state, id, source),
    }
}

/// Whether one of an object's static abilities prohibits damage from a source to a target.
pub open spec fn statics_prohibit(
    g: Game,
    o: GameObject,
    defs: List<StaticDefinition>,
    source: ObjectId,
    target: TargetRef,
) -> bool
    decreases defs,
{
    match defs.node {
        None => false,
        Some(n) => (static_applies(g, o, *n.item) && match n.item.mode {
            StaticMode::ProhibitDamage { recipient } => allows_object(
                g,
                n.item.affected,
                source,
                source_context(g, o.id),
            ) && match target {
                TargetRef::Object(id) => allows_object(
                    g,
                    recipient,
                    id,
                    source_context(g, o.id),
                ),
                TargetRef::Player(p) => allows_player(recipient, p, source_context(g, o.id)),
            },
            _ => false,
        }) || statics_prohibit(g, o, n.rest, source, target),
    }
}

fn check_statics_prohibit(
    state: &GameState,
    o: &GameObject,
    defs: &List<StaticDefinition>,
    source: ObjectId,
    target: TargetRef,
) -> (r: bool)
    ensures
        r == statics_prohibit(state@, *o, *defs, source, target),
    decreases defs,
{
    match &defs.node {
        None => false,
        Some(n) => (is_static_active(state, o, &n.item) && match &n.item.mode {
            StaticMode::ProhibitDamage { recipient } => {
                let ctx = FilterContext::from_source(state, o.id);
                object_allowed(state, &n.item.affected, source, &ctx) && match target {
                    TargetRef::Object(id) => object_allowed(state, recipient, id, &ctx),
                    TargetRef::Player(p) => player_allowed(recipient, p, &ctx),
                }
            },
            _ => false,
        }) || check_statics_prohibit(state, o, &n.rest, source, target),
    }
}

pub open spec fn permanent_prohibits(
    g: Game,
    id: ObjectId,
    source: ObjectId,
    target: TargetRef,
) -> bool {
    g.object(id) matches Some(o) && statics_prohibit(g, o, o.static_definitions, source, target)
}

/// Whether a permanent keeps a source from dealing damage to a target. Such damage is not
/// prevented: it never comes about (CR 614.17).
#[verifier::opaque]
pub open spec fn prohibited(g: Game, source: ObjectId, target: TargetRef) -> bool {
    exists|i: int|
        0 <= i < g.battlefield.len() && permanent_prohibits(
            g,
            #[trigger] g.battlefield[i],
            source,
            target,
        )
}

fn check_prohibited(state: &GameState, source: ObjectId, target: TargetRef) -> (r: bool)
    ensures
        r == prohibited(state@, source, target),
{
    proof {
        reveal(prohibited);
    }
    let mut i: usize = 0;
    while i < state.battlefield.len()
        invariant
            i <= state.battlefield@.len(),
            forall|j: int|
                0 <= j < i ==> !permanent_prohibits(
                    state@,
                    #[trigger] state@.battlefield[j],
                    source,
                    target,
                ),
        decreases state.battlefield@.len() - i,
    {
        let found: bool = match state.objects.get(&state.battlefield[i]) {
            None => false,
            Some(o) => check_statics_prohibit(state, o, &o.static_definitions, source, target),
        };
        if found {
            proof {
                reveal(prohibited);
                assert(permanent_prohibits(state@, state@.battlefield[i as int], source, target));
            }
            return true;
        }
        i = i + 1;
    }
    false
}

/// Whether damage gets as far as the replacement effects: there is some, it can be dealt, nothing
/// prohibits it and no protection prevents it.
pub open spec fn passes_gate(g: Game, source: ObjectId, target: TargetRef, amount: u32) -> bool {
    can_be_dealt(g, target, amount) && !prohibited(g, source, target) && !protected(
        g,
        source,
        target,
    )
}

/// What is told of damage before any replacement: that protection has prevented it.
pub open spec fn gate_told(g: Game, source: ObjectId, target: TargetRef, amount: u32) -> Seq<
    GameEvent,
> {
    if can_be_dealt(g, target, amount) && !prohibited(g, source, target) && protected(
        g,
        source,
        target,
    ) {
        seq![GameEvent::DamagePrevented { source_id: source, target, amount }]
    } else {
        seq![]
    }
}

/// The checks that come before any replacement: no damage is dealt where there is none or to
/// what is not there (CR 120.1, CR 120.8), where it is prohibited (CR 614.17), or where
/// protection prevents it, which is told (CR 702.16e).
pub fn pre_replacement_damage_gate(
    state: &GameState,
    ctx: &DamageContext,
    target: TargetRef,
    amount: u32,
    events: &mut Vec<GameEvent>,
) -> (r: bool)
    ensures
        r == passes_gate(state@, ctx.source_id, target, amount),
        final(events)@ == old(events)@ + gate_told(state@, ctx.source_id, target, amount),
{
    let dealt: bool = amount > 0 && match target {
        TargetRef::Object(id) => state.is_on_battlefield(id),
        TargetRef::Player(id) => state.get_player(id).is_some(),
    };
    if !dealt || check_prohibited(state, ctx.source_id, target) {
        assert(events@ =~= old(events)@ + gate_told(state@, ctx.source_id, target, amount));
        return false;
    }
    let prevented: bool = check_protected(state, ctx.source_id, target);
    if prevented {
        events.push(GameEvent::DamagePrevented { source_id: ctx.source_id, target, amount });
    }
    assert(events@ =~= old(events)@ + gate_told(state@, ctx.source_id, target, amount));
    !prevented
}

/// A player with more or less life.
pub open spec fn with_life(p: Player, by: int) -> Player {
    Player {
        life: clamped(p.life + by),
        life_gained_this_turn: if by > 0 {
            sat_sum(p.life_gained_this_turn, capped(by as nat))
        } else {
            p.life_gained_this_turn
        },
        life_lost_this_turn: if by < 0 {
            sat_sum(p.life_lost_this_turn, capped((-by) as nat))
        } else {
            p.life_lost_this_turn
        },
        ..p
    }
}

/// A life total changed. What static abilities make of it is to be seen to.
#[verifier::opaque]
pub open spec fn life_changed(p: Play, player: PlayerId, by: int) -> Play {
    match p.game.player(player) {
        None => p,
        Some(q) => Play {
            game: Game { layers_dirty: true, ..p.game.set_player(player, with_life(q, by)) },
            events: p.events.push(
                GameEvent::LifeChanged { player_id: player, amount: clamped(by) },
            ),
        },
    }
}

fn write_life(p: &mut Player, by: i64)
    requires
        -0xFFFF_FFFF <= by <= 0xFFFF_FFFF,
    ensures
        *final(p) == with_life(*old(p), by as int),
{
    p.life = clamp(p.life as i64 + by);
    p.life_gained_this_turn = if by > 0 {
        p.life_gained_this_turn.saturating_add(by as u32)
    } else {
        p.life_gained_this_turn
    };
    p.life_lost_this_turn = if by < 0 {
        p.life_lost_this_turn.saturating_add((-by) as u32)
    } else {
        p.life_lost_this_turn
    };
}

fn change_life(state: &mut GameState, player: PlayerId, by: i64, events: &mut Vec<GameEvent>)
    requires
        -0xFFFF_FFFF <= by <= 0xFFFF_FFFF,
    ensures
        (Play { game: final(state)@, events: final(events)@ }) == life_changed(
            Play { game: old(state)@, events: old(events)@ },
            player,
            by as int,
        ),
{
    proof {
        reveal(life_changed);
    }
    let seat: usize = state.find_seat(player);
    if seat < state.players.len() {
        write_life(&mut state.players[seat], by);
        state.layers_dirty = true;
        events.push(GameEvent::LifeChanged { player_id: player, amount: clamp(by) });
    }
}

/// A player with more poison counters.
pub open spec fn poisoned(g: Game, player: PlayerId, count: u32) -> Game {
    match g.player(player) {
        None => g,
        Some(q) => g.set_player(
            player,
            Player { poison_counters: sat_sum(q.poison_counters, count), ..q },
        ),
    }
}

fn poison(state: &mut GameState, player: PlayerId, count: u32)
    ensures
        final(state)@ == poisoned(old(state)@, player, count),
{
    let seat: usize = state.find_seat(player);
    if seat < state.players.len() {
        let sum: u32 = state.players[seat].poison_counters.saturating_add(count);
        state.players[seat].poison_counters = sum;
    }
}

/// CR 120.3: damage dealt to a player: life lost, or poison counters from a source with infect,
/// and poison counters besides for combat damage from a source with toxic.
#[verifier::opaque]
pub open spec fn player_hit(
    p: Play,
    ctx: DamageContext,
    player: PlayerId,
    amount: u32,
    is_combat: bool,
) -> Play {
    let hurt = if ctx.has_infect {
        Play { game: poisoned(p.game, player, amount), ..p }
    } else {
        life_changed(p, player, -(amount as int))
    };
    if is_combat && ctx.toxic > 0 {
        Play { game: poisoned(hurt.game, player, ctx.toxic), ..hurt }
    } else {
        hurt
    }
}

fn hit_player(
    state: &mut GameState,
    ctx: &DamageContext,
    player: PlayerId,
    amount: u32,
    is_combat: bool,
    events: &mut Vec<GameEvent>,
)
    ensures
        (Play { game: final(state)@, events: final(events)@ }) == player_hit(
            Play { game: old(state)@, events: old(events)@ },
            *ctx,
            player,
            amount,
            is_combat,
        ),
{
    proof {
        reveal(player_hit);
    }
    if ctx.has_infect {
        poison(state, player, amount);
    } else {
        change_life(state, player, -(amount as i64), events);
    }
    if is_combat && ctx.toxic > 0 {
        poison(state, player, ctx.toxic);
    }
}

/// Whether the damage of a source shrinks a creature instead of being marked on it.
pub open spec fn shrinks(o: GameObject, ctx: DamageContext) -> bool {
    o.is_type(CoreType::Creature) && (ctx.has_wither || ctx.has_infect)
}

/// How much loyalty a permanent that has some has left.
pub open spec fn loyalty_left(o: GameObject, amount: u32) -> Option<u32> {
    match o.loyalty {
        None => None,
        Some(l) => Some(
            if l > amount {
                (l - amount) as u32
            } else {
                0
            },
        ),
    }
}

/// The counters on a permanent after damage: -1/-1 counters from wither and infect, and as many
/// loyalty counters as there is loyalty (CR 306.5b).
pub open spec fn counters_after(o: GameObject, ctx: DamageContext, amount: u32) -> Counters {
    let shrunk = if shrinks(o, ctx) {
        o.counters.put(
            CounterType::Minus1Minus1,
            sat_sum(o.counters.count(CounterType::Minus1Minus1), amount),
        )
    } else {
        o.counters
    };
    match (o.is_type(CoreType::Planeswalker), loyalty_left(o, amount)) {
        (true, Some(left)) => shrunk.put(CounterType::Loyalty, left),
        _ => shrunk,
    }
}

/// CR 120.3: a permanent after damage. A creature has it marked, a planeswalker loses loyalty.
pub open spec fn damaged(o: GameObject, ctx: DamageContext, amount: u32) -> GameObject {
    let creature = o.is_type(CoreType::Creature);
    GameObject {
        damage_marked: if creature && !shrinks(o, ctx) {
            sat_sum(o.damage_marked, amount)
        } else {
            o.damage_marked
        },
        dealt_deathtouch_damage: o.dealt_deathtouch_damage || (creature && ctx.has_deathtouch),
        counters: counters_after(o, ctx, amount),
        loyalty: if o.is_type(CoreType::Planeswalker) {
            loyalty_left(o, amount)
        } else {
            o.loyalty
        },
        ..o
    }
}

fn count_counters_after(o: &GameObject, ctx: &DamageContext, amount: u32) -> (r: Counters)
    ensures
        r == counters_after(*o, *ctx, amount),
{
    let mut counters = o.counters.clone();
    if o.has_core_type(CoreType::Creature) && (ctx.has_wither || ctx.has_infect) {
        let count: u32 = counters.get(CounterType::Minus1Minus1).saturating_add(amount);
        counters.insert(CounterType::Minus1Minus1, count);
    }
    if o.has_core_type(CoreType::Planeswalker) {
        if let Some(loyalty) = o.loyalty {
            counters.insert(CounterType::Loyalty, loyalty.saturating_sub(amount));
        }
    }
    counters
}

fn write_damage(
    o: &mut GameObject,
    marked: u32,
    deathtouch: bool,
    counters: Counters,
    loyalty: Option<u32>,
)
    ensures
        *final(o) == (GameObject {
            damage_marked: marked,
            dealt_deathtouch_damage: deathtouch,
            counters,
            loyalty,
            ..*old(o)
        }),
{
    o.damage_marked = marked;
    o.dealt_deathtouch_damage = deathtouch;
    o.counters = counters;
    o.loyalty = loyalty;
}

fn find_marked(o: &GameObject, ctx: &DamageContext, amount: u32) -> (r: u32)
    ensures
        r == damaged(*o, *ctx, amount).damage_marked,
{
    if o.has_core_type(CoreType::Creature) && !(ctx.has_wither || ctx.has_infect) {
        o.damage_marked.saturating_add(amount)
    } else {
        o.damage_marked
    }
}

fn find_loyalty_left(o: &GameObject, amount: u32) -> (r: Option<u32>)
    ensures
        r == (if o.is_type(CoreType::Planeswalker) {
            loyalty_left(*o, amount)
        } else {
            o.loyalty
        }),
{
    if o.has_core_type(CoreType::Planeswalker) {
        match o.loyalty {
            None => None,
            Some(l) => Some(l.saturating_sub(amount)),
        }
    } else {
        o.loyalty
    }
}

fn damage_permanent(o: &mut GameObject, ctx: &DamageContext, amount: u32)
    ensures
        *final(o) == damaged(*old(o), *ctx, amount),
{
    let marked: u32 = find_marked(o, ctx, amount);
    let deathtouch: bool = o.dealt_deathtouch_damage || (o.has_core_type(CoreType::Creature)
        && ctx.has_deathtouch);
    let counters = count_counters_after(o, ctx, amount);
    let loyalty: Option<u32> = find_loyalty_left(o, amount);
    write_damage(o, marked, deathtouch, counters, loyalty);
}

/// Damage dealt to a permanent.
#[verifier::opaque]
pub open spec fn permanent_hit(p: Play, ctx: DamageContext, id: ObjectId, amount: u32) -> Play {
    match p.game.object(id) {
        None => p,
        Some(o) => {
            let hit = p.game.set_object(id, damaged(o, ctx, amount));
            if shrinks(o, ctx) {
                Play {
                    game: Game { layers_dirty: true, ..hit },
                    events: p.events.push(
                        GameEvent::CounterAdded {
                            object_id: id,
                            counter_type: CounterType::Minus1Minus1,
                            count: amount,
                        },
                    ),
                }
            } else {
                Play { game: hit, ..p }
            }
        },
    }
}

fn hit_permanent(
    state: &mut GameState,
    ctx: &DamageContext,
    id: ObjectId,
    amount: u32,
    events: &mut Vec<GameEvent>,
)
    ensures
        (Play { game: final(state)@, events: final(events)@ }) == permanent_hit(
            Play { game: old(state)@, events: old(events)@ },
            *ctx,
            id,
            amount,
        ),
{
    proof {
        reveal(permanent_hit);
    }
    let shrunk: bool = match state.objects.get_mut(&id) {
        None => {
            return ;
        },
        Some(o) => {
            let shrunk: bool = o.has_core_type(CoreType::Creature) && (ctx.has_wither
                || ctx.has_infect);
            damage_permanent(o, ctx, amount);
            shrunk
        },
    };
    if shrunk {
        state.layers_dirty = true;
        events.push(
            GameEvent::CounterAdded {
                object_id: id,
                counter_type: CounterType::Minus1Minus1,
                count: amount,
            },
        );
    }
}

/// How much damage destroys a creature: what its toughness has left, or any damage at all from a
/// source with deathtouch (CR 702.2c).
pub open spec fn lethal_to(o: GameObject, deathtouch: bool) -> u32 {
    if deathtouch {
        1
    } else {
        let toughness: int = match o.toughness {
            None => 0,
            Some(t) => if t > 0 {
                t as int
            } else {
                0
            },
        };
        if toughness > o.damage_marked {
            (toughness - o.damage_marked) as u32
        } else {
            0
        }
    }
}

pub fn find_lethal(o: &GameObject, deathtouch: bool) -> (r: u32)
    ensures
        r == lethal_to(*o, deathtouch),
{
    if deathtouch {
        return 1;
    }
    let toughness: u32 = match o.toughness {
        None => 0,
        Some(t) => if t > 0 {
            t as u32
        } else {
            0
        },
    };
    toughness.saturating_sub(o.damage_marked)
}

/// The part of the damage to a permanent that it did not take to destroy it (CR 120.10).
pub open spec fn excess_damage(g: Game, ctx: DamageContext, target: TargetRef, amount: u32) -> u32 {
    match target {
        TargetRef::Player(_) => 0,
        TargetRef::Object(id) => match g.object(id) {
            None => 0,
            Some(o) => {
                let needed = if o.is_type(CoreType::Creature) {
                    lethal_to(o, ctx.has_deathtouch)
                } else {
                    match o.loyalty {
                        None => amount,
                        Some(l) => l,
                    }
                };
                if amount > needed {
                    (amount - needed) as u32
                } else {
                    0
                }
            },
        },
    }
}

fn find_excess(state: &GameState, ctx: &DamageContext, target: TargetRef, amount: u32) -> (r: u32)
    ensures
        r == excess_damage(state@, *ctx, target, amount),
{
    match target {
        TargetRef::Player(_) => 0,
        TargetRef::Object(id) => match state.objects.get(&id) {
            None => 0,
            Some(o) => {
                let needed: u32 = if o.has_core_type(CoreType::Creature) {
                    find_lethal(o, ctx.has_deathtouch)
                } else {
                    match o.loyalty {
                        None => amount,
                        Some(l) => l,
                    }
                };
                amount.saturating_sub(needed)
            },
        },
    }
}

/// Damage dealt: it is told and recorded, it has its results, and the controller of a source with
/// lifelink gains as much life (CR 120.3).
#[verifier::opaque]
pub open spec fn damage_dealt(
    p: Play,
    ctx: DamageContext,
    target: TargetRef,
    amount: u32,
    is_combat: bool,
) -> Play {
    let told = Play {
        game: Game {
            damage_dealt_this_turn: p.game.damage_dealt_this_turn.push(
                DamageRecord {
                    source_id: ctx.source_id,
                    source_controller: ctx.controller,
                    target,
                    amount,
                    is_combat,
                },
            ),
            ..p.game
        },
        events: p.events.push(
            GameEvent::DamageDealt {
                source_id: ctx.source_id,
                target,
                amount,
                is_combat,
                excess: excess_damage(p.game, ctx, target, amount),
            },
        ),
    };
    let hit = match target {
        TargetRef::Player(id) => player_hit(told, ctx, id, amount, is_combat),
        TargetRef::Object(id) => permanent_hit(told, ctx, id, amount),
    };
    if ctx.has_lifelink {
        life_changed(hit, ctx.controller, amount as int)
    } else {
        hit
    }
}

/// CR 120.3 + CR 120.4b: Applies damage that no replacement will change any more.
pub fn apply_damage_after_replacement(
    state: &mut GameState,
    ctx: &DamageContext,
    target: TargetRef,
    amount: u32,
    is_combat: bool,
    events: &mut Vec<GameEvent>,
)
    ensures
        (Play { game: final(state)@, events: final(events)@ }) == damage_dealt(
            Play { game: old(state)@, events: old(events)@ },
            *ctx,
            target,
            amount,
            is_combat,
        ),
{
    proof {
        reveal(damage_dealt);
    }
    let excess: u32 = find_excess(state, ctx, target, amount);
    state.damage_dealt_this_turn.push(
        DamageRecord {
            source_id: ctx.source_id,
            source_controller: ctx.controller,
            target,
            amount,
            is_combat,
        },
    );
    events.push(
        GameEvent::DamageDealt { source_id: ctx.source_id, target, amount, is_combat, excess },
    );
    match target {
        TargetRef::Player(id) => hit_player(state, ctx, id, amount, is_combat, events),
        TargetRef::Object(id) => hit_permanent(state, ctx, id, amount, events),
    }
    if ctx.has_lifelink {
        change_life(state, ctx.controller, amount as i64, events);
    }
}

} // verus!
