//! What the rooms of the dungeons do (CR 309.4c).

use crate::ability::{
    AbilityCost, Duration, Effect, GainLifePlayer, Keyword, PlayerFilter, PtValue, QuantityExpr,
    ResolvedAbility, TargetFilter, TargetSelectionConstraint, TokenSpec, TypeFilter, TypedFilter,
    UnlessPayModifier,
};
use crate::dungeon::room_count;
use crate::ids::{
    ControllerRef, CoreType, CounterType, DungeonId, ManaColor, ObjectId, PlayerId, Supertype,
};
use crate::list::{list_of, List};
use crate::text::Text;
use std::rc::Rc;
use vstd::prelude::*;

verus! {

pub open spec fn fixed(value: i32) -> QuantityExpr {
    QuantityExpr::Fixed { value }
}

/// "Scry `n`."
pub open spec fn scry(n: i32) -> Effect {
    Effect::Scry { count: fixed(n) }
}

/// "Draw `n` cards."
pub open spec fn draw(n: i32) -> Effect {
    Effect::Draw { count: fixed(n), target: TargetFilter::Controller }
}

/// "Target creature."
pub open spec fn any_creature() -> TargetFilter {
    TargetFilter::Typed(
        TypedFilter {
            type_filters: list_of(seq![TypeFilter::Creature]),
            controller: None,
            properties: list_of(seq![]),
        },
    )
}

fn build_any_creature() -> (r: TargetFilter)
    ensures
        r == any_creature(),
{
    TargetFilter::Typed(
        TypedFilter {
            type_filters: List::one(TypeFilter::Creature),
            controller: None,
            properties: List::new(),
        },
    )
}

/// "Put `n` +1/+1 counters on target creature."
pub open spec fn strengthen(n: i32) -> Effect {
    Effect::PutCounter {
        counter_type: CounterType::Plus1Plus1,
        count: fixed(n),
        target: any_creature(),
    }
}

fn build_strengthen(n: i32) -> (r: Effect)
    ensures
        r == strengthen(n),
{
    Effect::PutCounter {
        counter_type: CounterType::Plus1Plus1,
        count: QuantityExpr::Fixed { value: n },
        target: build_any_creature(),
    }
}

/// A permanent that the player controls, of the given kind.
pub open spec fn own(kind: TypeFilter) -> TargetFilter {
    TargetFilter::Typed(
        TypedFilter {
            type_filters: list_of(seq![kind]),
            controller: Some(ControllerRef::You),
            properties: list_of(seq![]),
        },
    )
}

fn build_own(kind: TypeFilter) -> (r: TargetFilter)
    ensures
        r == own(kind),
{
    TargetFilter::Typed(
        TypedFilter {
            type_filters: List::one(kind),
            controller: Some(ControllerRef::You),
            properties: List::new(),
        },
    )
}

/// "Create a Treasure token."
pub open spec fn treasure() -> Effect {
    Effect::Token(
        TokenSpec {
            name: Text::Literal("Treasure"),
            power: PtValue::Fixed(0),
            toughness: PtValue::Fixed(0),
            supertypes: list_of(seq![]),
            core_types: list_of(seq![CoreType::Artifact]),
            subtypes: list_of(seq![Text::Literal("Treasure")]),
            colors: list_of(seq![]),
            keywords: list_of(seq![]),
            tapped: false,
            count: fixed(1),
        },
    )
}

fn build_treasure() -> (r: Effect)
    ensures
        r == treasure(),
{
    Effect::Token(
        TokenSpec {
            name: Text::Literal("Treasure"),
            power: PtValue::Fixed(0),
            toughness: PtValue::Fixed(0),
            supertypes: List::new(),
            core_types: List::one(CoreType::Artifact),
            subtypes: List::one(Text::Literal("Treasure")),
            colors: List::new(),
            keywords: List::new(),
            tapped: false,
            count: QuantityExpr::Fixed { value: 1 },
        },
    )
}

/// Creature tokens of one color and one type, named after it.
pub open spec fn creatures(
    name: &'static str,
    power: i32,
    toughness: i32,
    color: ManaColor,
    keywords: Seq<Keyword>,
    count: i32,
) -> Effect {
    Effect::Token(
        TokenSpec {
            name: Text::Literal(name),
            power: PtValue::Fixed(power),
            toughness: PtValue::Fixed(toughness),
            supertypes: list_of(seq![]),
            core_types: list_of(seq![CoreType::Creature]),
            subtypes: list_of(seq![Text::Literal(name)]),
            colors: list_of(seq![color]),
            keywords: list_of(keywords),
            tapped: false,
            count: fixed(count),
        },
    )
}

fn build_creatures(
    name: &'static str,
    power: i32,
    toughness: i32,
    color: ManaColor,
    keywords: Vec<Keyword>,
    count: i32,
) -> (r: Effect)
    ensures
        r == creatures(name, power, toughness, color, keywords@, count),
{
    Effect::Token(
        TokenSpec {
            name: Text::Literal(name),
            power: PtValue::Fixed(power),
            toughness: PtValue::Fixed(toughness),
            supertypes: List::new(),
            core_types: List::one(CoreType::Creature),
            subtypes: List::one(Text::Literal(name)),
            colors: List::one(color),
            keywords: List::from_vec(keywords),
            tapped: false,
            count: QuantityExpr::Fixed { value: count },
        },
    )
}

/// "Create The Atropal, a legendary 4/4 black God Horror creature token with deathtouch."
pub open spec fn atropal() -> Effect {
    Effect::Token(
        TokenSpec {
            name: Text::Literal("The Atropal"),
            power: PtValue::Fixed(4),
            toughness: PtValue::Fixed(4),
            supertypes: list_of(seq![Supertype::Legendary]),
            core_types: list_of(seq![CoreType::Creature]),
            subtypes: list_of(seq![Text::Literal("God"), Text::Literal("Horror")]),
            colors: list_of(seq![ManaColor::Black]),
            keywords: list_of(seq![Keyword::Deathtouch]),
            tapped: false,
            count: fixed(1),
        },
    )
}

fn build_atropal() -> (r: Effect)
    ensures
        r == atropal(),
{
    let subtypes: Vec<Text> = vec![Text::Literal("God"), Text::Literal("Horror")];
    assert(subtypes@ =~= seq![Text::Literal("God"), Text::Literal("Horror")]);
    Effect::Token(
        TokenSpec {
            name: Text::Literal("The Atropal"),
            power: PtValue::Fixed(4),
            toughness: PtValue::Fixed(4),
            supertypes: List::one(Supertype::Legendary),
            core_types: List::one(CoreType::Creature),
            subtypes: List::from_vec(subtypes),
            colors: List::one(ManaColor::Black),
            keywords: List::one(Keyword::Deathtouch),
            tapped: false,
            count: QuantityExpr::Fixed { value: 1 },
        },
    )
}

/// An effect as an ability of a player's room, with what follows it.
pub open spec fn ability_of(
    effect: Effect,
    source_id: ObjectId,
    player: PlayerId,
    rest: Option<ResolvedAbility>,
) -> ResolvedAbility {
    ResolvedAbility {
        sub_ability: match rest {
            None => None,
            Some(rest) => Some(Rc::new(rest)),
        },
        ..ResolvedAbility::plain(effect, seq![], source_id, player)
    }
}

fn build_ability(
    effect: Effect,
    source_id: ObjectId,
    player: PlayerId,
    rest: Option<ResolvedAbility>,
) -> (r: ResolvedAbility)
    ensures
        r == ability_of(effect, source_id, player, rest),
{
    let mut r = ResolvedAbility::new(effect, Vec::new(), source_id, player);
    r.sub_ability = match rest {
        None => None,
        Some(rest) => Some(Rc::new(rest)),
    };
    r
}

/// "Each of some players loses `n` life", unless that player pays a cost where there is one.
pub open spec fn drain(
    n: i32,
    scope: PlayerFilter,
    unless: Option<AbilityCost>,
    source_id: ObjectId,
    player: PlayerId,
    rest: Option<ResolvedAbility>,
) -> ResolvedAbility {
    ResolvedAbility {
        player_scope: Some(scope),
        unless_pay: match unless {
            None => None,
            Some(cost) => Some(
                Rc::new(UnlessPayModifier { cost, payer: TargetFilter::ScopedPlayer }),
            ),
        },
        ..ability_of(
            Effect::LoseLife { amount: fixed(n), target: None },
            source_id,
            player,
            rest,
        )
    }
}

fn build_drain(
    n: i32,
    scope: PlayerFilter,
    unless: Option<AbilityCost>,
    source_id: ObjectId,
    player: PlayerId,
    rest: Option<ResolvedAbility>,
) -> (r: ResolvedAbility)
    ensures
        r == drain(n, scope, unless, source_id, player, rest),
{
    let mut r = build_ability(
        Effect::LoseLife { amount: QuantityExpr::Fixed { value: n }, target: None },
        source_id,
        player,
        rest,
    );
    r.player_scope = Some(scope);
    r.unless_pay = match unless {
        None => None,
        Some(cost) => Some(
            Rc::new(UnlessPayModifier { cost, payer: TargetFilter::ScopedPlayer }),
        ),
    };
    r
}

/// An effect that lasts until the player's next turn.
pub open spec fn until_next_turn(effect: Effect, source_id: ObjectId, player: PlayerId) ->
    ResolvedAbility {
    ResolvedAbility {
        duration: Some(Duration::UntilYourNextTurn),
        ..ability_of(effect, source_id, player, None)
    }
}

fn build_until_next_turn(effect: Effect, source_id: ObjectId, player: PlayerId) -> (r:
    ResolvedAbility)
    ensures
        r == until_next_turn(effect, source_id, player),
{
    let mut r = build_ability(effect, source_id, player, None);
    r.duration = Some(Duration::UntilYourNextTurn);
    r
}

/// "Sacrifice" one permanent of a kind, and what follows.
pub open spec fn sacrifice(
    kind: TypeFilter,
    source_id: ObjectId,
    player: PlayerId,
    rest: Option<ResolvedAbility>,
) -> ResolvedAbility {
    ability_of(
        Effect::Sacrifice { target: own(kind), count: fixed(1), min_count: 1 },
        source_id,
        player,
        rest,
    )
}

fn build_sacrifice(
    kind: TypeFilter,
    source_id: ObjectId,
    player: PlayerId,
    rest: Option<ResolvedAbility>,
) -> (r: ResolvedAbility)
    ensures
        r == sacrifice(kind, source_id, player, rest),
{
    build_ability(
        Effect::Sacrifice {
            target: build_own(kind),
            count: QuantityExpr::Fixed { value: 1 },
            min_count: 1,
        },
        source_id,
        player,
        rest,
    )
}

/// The rooms of the Lost Mine of Phandelver.
pub open spec fn lost_mine(room: u8, source_id: ObjectId, player: PlayerId) -> ResolvedAbility {
    if room == 0 {
        ability_of(scry(1), source_id, player, None)
    } else if room == 1 {
        ability_of(
            creatures("Goblin", 1, 1, ManaColor::Red, seq![], 1),
            source_id,
            player,
            None,
        )
    } else if room == 2 {
        ability_of(treasure(), source_id, player, None)
    } else if room == 3 {
        ability_of(strengthen(1), source_id, player, None)
    } else if room == 4 {
        // Each opponent loses 1 life and you gain 1 life.
        drain(
            1,
            PlayerFilter::Opponent,
            None,
            source_id,
            player,
            Some(
                ability_of(
                    Effect::GainLife { amount: fixed(1), player: GainLifePlayer::Controller },
                    source_id,
                    player,
                    None,
                ),
            ),
        )
    } else if room == 5 {
        // Target creature gets -4/-0 until your next turn.
        until_next_turn(
            Effect::Pump {
                power: PtValue::Fixed((-4) as i32),
                toughness: PtValue::Fixed(0),
                target: any_creature(),
            },
            source_id,
            player,
        )
    } else {
        ability_of(draw(1), source_id, player, None)
    }
}

fn build_lost_mine(room: u8, source_id: ObjectId, player: PlayerId) -> (r: ResolvedAbility)
    ensures
        r == lost_mine(room, source_id, player),
{
    let one = QuantityExpr::Fixed { value: 1 };
    if room == 0 {
        build_ability(Effect::Scry { count: one }, source_id, player, None)
    } else if room == 1 {
        let none: Vec<Keyword> = Vec::new();
        let effect = build_creatures("Goblin", 1, 1, ManaColor::Red, none, 1);
        build_ability(effect, source_id, player, None)
    } else if room == 2 {
        build_ability(build_treasure(), source_id, player, None)
    } else if room == 3 {
        build_ability(build_strengthen(1), source_id, player, None)
    } else if room == 4 {
        let gain = build_ability(
            Effect::GainLife { amount: one, player: GainLifePlayer::Controller },
            source_id,
            player,
            None,
        );
        build_drain(1, PlayerFilter::Opponent, None, source_id, player, Some(gain))
    } else if room == 5 {
        build_until_next_turn(
            Effect::Pump {
                power: PtValue::Fixed(-4),
                toughness: PtValue::Fixed(0),
                target: build_any_creature(),
            },
            source_id,
            player,
        )
    } else {
        let effect = Effect::Draw { count: one, target: TargetFilter::Controller };
        build_ability(effect, source_id, player, None)
    }
}

/// The rooms of the Dungeon of the Mad Mage.
pub open spec fn mad_mage(room: u8, source_id: ObjectId, player: PlayerId) -> ResolvedAbility {
    if room == 0 {
        ability_of(
            Effect::GainLife { amount: fixed(1), player: GainLifePlayer::Controller },
            source_id,
            player,
            None,
        )
    } else if room == 1 {
        ability_of(scry(1), source_id, player, None)
    } else if room == 2 {
        ability_of(treasure(), source_id, player, None)
    } else if room == 3 {
        // Target creature can't attack until your next turn.
        until_next_turn(Effect::CantAttack { target: any_creature() }, source_id, player)
    } else if room == 4 {
        ability_of(scry(2), source_id, player, None)
    } else if room == 5 {
        ability_of(Effect::ExileTopToPlay { count: fixed(2) }, source_id, player, None)
    } else if room == 6 {
        ability_of(
            creatures("Skeleton", 1, 1, ManaColor::Black, seq![], 2),
            source_id,
            player,
            None,
        )
    } else if room == 7 {
        ability_of(scry(3), source_id, player, None)
    } else {
        ability_of(Effect::DrawAndCastOneFree { count: fixed(3) }, source_id, player, None)
    }
}

fn build_mad_mage(room: u8, source_id: ObjectId, player: PlayerId) -> (r: ResolvedAbility)
    ensures
        r == mad_mage(room, source_id, player),
{
    let effect = if room == 0 {
        Effect::GainLife {
            amount: QuantityExpr::Fixed { value: 1 },
            player: GainLifePlayer::Controller,
        }
    } else if room == 1 {
        Effect::Scry { count: QuantityExpr::Fixed { value: 1 } }
    } else if room == 2 {
        build_treasure()
    } else if room == 3 {
        return build_until_next_turn(
            Effect::CantAttack { target: build_any_creature() },
            source_id,
            player,
        );
    } else if room == 4 {
        Effect::Scry { count: QuantityExpr::Fixed { value: 2 } }
    } else if room == 5 {
        Effect::ExileTopToPlay { count: QuantityExpr::Fixed { value: 2 } }
    } else if room == 6 {
        let none: Vec<Keyword> = Vec::new();
        build_creatures("Skeleton", 1, 1, ManaColor::Black, none, 2)
    } else if room == 7 {
        Effect::Scry { count: QuantityExpr::Fixed { value: 3 } }
    } else {
        Effect::DrawAndCastOneFree { count: QuantityExpr::Fixed { value: 3 } }
    };
    build_ability(effect, source_id, player, None)
}

/// "Discard a card" as a cost.
pub open spec fn discard_cost() -> AbilityCost {
    AbilityCost::Discard { count: fixed(1), filter: None, random: false, self_ref: false }
}

/// "Sacrifice an artifact, a creature, or a land" as a cost.
pub open spec fn sacrifice_cost() -> AbilityCost {
    AbilityCost::Sacrifice {
        target: Rc::new(
            own(
                TypeFilter::AnyOf(
                    list_of(
                        seq![TypeFilter::Artifact, TypeFilter::Creature, TypeFilter::Land],
                    ),
                ),
            ),
        ),
        count: 1,
    }
}

fn build_sacrifice_cost() -> (r: AbilityCost)
    ensures
        r == sacrifice_cost(),
{
    let kinds: Vec<TypeFilter> = vec![
        TypeFilter::Artifact,
        TypeFilter::Creature,
        TypeFilter::Land,
    ];
    assert(kinds@ =~= seq![TypeFilter::Artifact, TypeFilter::Creature, TypeFilter::Land]);
    AbilityCost::Sacrifice {
        target: Rc::new(build_own(TypeFilter::AnyOf(List::from_vec(kinds)))),
        count: 1,
    }
}

/// The rooms of the Tomb of Annihilation.
pub open spec fn tomb(room: u8, source_id: ObjectId, player: PlayerId) -> ResolvedAbility {
    if room == 0 {
        drain(1, PlayerFilter::All, None, source_id, player, None)
    } else if room == 1 {
        // Each player loses 2 life unless they discard a card.
        drain(2, PlayerFilter::All, Some(discard_cost()), source_id, player, None)
    } else if room == 2 {
        // Discard a card and sacrifice an artifact, a creature, and a land.
        ability_of(
            Effect::Discard { count: fixed(1), target: TargetFilter::Controller },
            source_id,
            player,
            Some(
                sacrifice(
                    TypeFilter::Artifact,
                    source_id,
                    player,
                    Some(
                        sacrifice(
                            TypeFilter::Creature,
                            source_id,
                            player,
                            Some(sacrifice(TypeFilter::Land, source_id, player, None)),
                        ),
                    ),
                ),
            ),
        )
    } else if room == 3 {
        // Each player loses 2 life unless they sacrifice an artifact, a creature, or a land.
        drain(2, PlayerFilter::All, Some(sacrifice_cost()), source_id, player, None)
    } else {
        ability_of(atropal(), source_id, player, None)
    }
}

fn build_tomb(room: u8, source_id: ObjectId, player: PlayerId) -> (r: ResolvedAbility)
    ensures
        r == tomb(room, source_id, player),
{
    if room == 0 {
        build_drain(1, PlayerFilter::All, None, source_id, player, None)
    } else if room == 1 {
        let cost = AbilityCost::Discard {
            count: QuantityExpr::Fixed { value: 1 },
            filter: None,
            random: false,
            self_ref: false,
        };
        build_drain(2, PlayerFilter::All, Some(cost), source_id, player, None)
    } else if room == 2 {
        let land = build_sacrifice(TypeFilter::Land, source_id, player, None);
        let creature = build_sacrifice(TypeFilter::Creature, source_id, player, Some(land));
        let artifact = build_sacrifice(TypeFilter::Artifact, source_id, player, Some(creature));
        build_ability(
            Effect::Discard {
                count: QuantityExpr::Fixed { value: 1 },
                target: TargetFilter::Controller,
            },
            source_id,
            player,
            Some(artifact),
        )
    } else if room == 3 {
        let cost = build_sacrifice_cost();
        build_drain(2, PlayerFilter::All, Some(cost), source_id, player, None)
    } else {
        build_ability(build_atropal(), source_id, player, None)
    }
}

/// The rooms of the Undercity.
pub open spec fn undercity(room: u8, source_id: ObjectId, player: PlayerId) -> ResolvedAbility {
    ability_of(
        if room == 0 {
            Effect::SearchBasicLand
        } else if room == 1 {
            strengthen(2)
        } else if room == 2 {
            scry(2)
        } else if room == 3 {
            Effect::LoseLife { amount: fixed(5), target: Some(TargetFilter::Player) }
        } else if room == 4 {
            Effect::Goad { target: any_creature() }
        } else if room == 5 {
            treasure()
        } else if room == 6 {
            draw(1)
        } else if room == 7 {
            creatures("Skeleton", 4, 1, ManaColor::Black, seq![Keyword::Menace], 1)
        } else {
            Effect::RaiseFromTop { revealed: fixed(10), counters: fixed(3) }
        },
        source_id,
        player,
        None,
    )
}

fn build_undercity(room: u8, source_id: ObjectId, player: PlayerId) -> (r: ResolvedAbility)
    ensures
        r == undercity(room, source_id, player),
{
    let effect = if room == 0 {
        Effect::SearchBasicLand
    } else if room == 1 {
        build_strengthen(2)
    } else if room == 2 {
        Effect::Scry { count: QuantityExpr::Fixed { value: 2 } }
    } else if room == 3 {
        Effect::LoseLife {
            amount: QuantityExpr::Fixed { value: 5 },
            target: Some(TargetFilter::Player),
        }
    } else if room == 4 {
        Effect::Goad { target: build_any_creature() }
    } else if room == 5 {
        build_treasure()
    } else if room == 6 {
        Effect::Draw {
            count: QuantityExpr::Fixed { value: 1 },
            target: TargetFilter::Controller,
        }
    } else if room == 7 {
        let keywords: Vec<Keyword> = vec![Keyword::Menace];
        assert(keywords@ =~= seq![Keyword::Menace]);
        build_creatures("Skeleton", 4, 1, ManaColor::Black, keywords, 1)
    } else {
        Effect::RaiseFromTop {
            revealed: QuantityExpr::Fixed { value: 10 },
            counters: QuantityExpr::Fixed { value: 3 },
        }
    };
    build_ability(effect, source_id, player, None)
}

/// The ability of a room.
pub open spec fn room_ability(
    dungeon: DungeonId,
    room: u8,
    source_id: ObjectId,
    player: PlayerId,
) -> ResolvedAbility {
    match dungeon {
        DungeonId::LostMineOfPhandelver => lost_mine(room, source_id, player),
        DungeonId::DungeonOfTheMadMage => mad_mage(room, source_id, player),
        DungeonId::TombOfAnnihilation => tomb(room, source_id, player),
        DungeonId::Undercity => undercity(room, source_id, player),
    }
}

/// The ability of a room and what its targets must satisfy together. No room takes more than one
/// target, so they need not satisfy anything.
pub fn room_effects(
    dungeon: DungeonId,
    room: u8,
    source_id: ObjectId,
    player: PlayerId,
) -> (r: (ResolvedAbility, List<TargetSelectionConstraint>))
    requires
        room < room_count(dungeon),
    ensures
        r.0 == room_ability(dungeon, room, source_id, player),
        r.1 == list_of::<TargetSelectionConstraint>(seq![]),
{
    let ability = match dungeon {
        DungeonId::LostMineOfPhandelver => build_lost_mine(room, source_id, player),
        DungeonId::DungeonOfTheMadMage => build_mad_mage(room, source_id, player),
        DungeonId::TombOfAnnihilation => build_tomb(room, source_id, player),
        DungeonId::Undercity => build_undercity(room, source_id, player),
    };
    (ability, List::new())
}

} // verus!
