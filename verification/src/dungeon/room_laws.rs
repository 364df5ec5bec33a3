//! What each room does to whom, and how much of it (CR 309.4c).

use crate::ability::{
    Duration, Effect, GainLifePlayer, Keyword, PlayerFilter, PtValue, QuantityExpr, ResolvedAbility,
    TargetFilter, TypeFilter,
};
use crate::dungeon::rooms::room_ability;
use crate::ids::{
    ControllerRef, CoreType, CounterType, DungeonId, ManaColor, ObjectId, PlayerId, Supertype,
};
use crate::list::lemma_items_of;
use crate::text::Text;
use vstd::prelude::*;

verus! {

/// Whether a filter lets through creatures, whoever controls them, and nothing else.
pub open spec fn is_any_creature(f: TargetFilter) -> bool {
    &&& f is Typed
    &&& f->Typed_0.type_filters@ == seq![TypeFilter::Creature]
    &&& f->Typed_0.controller is None
    &&& f->Typed_0.properties@.len() == 0
}

/// Whether a filter lets through what its player controls of one kind, and nothing else.
pub open spec fn is_own(f: TargetFilter, kind: TypeFilter) -> bool {
    &&& f is Typed
    &&& f->Typed_0.type_filters@ == seq![kind]
    &&& f->Typed_0.controller == Some(ControllerRef::You)
    &&& f->Typed_0.properties@.len() == 0
}

/// Whether an effect makes some tokens: so many, of a name, a size and a color, with keywords.
pub open spec fn makes_creatures(
    effect: Effect,
    name: &'static str,
    power: i32,
    toughness: i32,
    color: ManaColor,
    keywords: Seq<Keyword>,
    count: i32,
) -> bool {
    &&& effect is Token
    &&& effect->Token_0.name == Text::Literal(name)
    &&& effect->Token_0.power == PtValue::Fixed(power)
    &&& effect->Token_0.toughness == PtValue::Fixed(toughness)
    &&& effect->Token_0.core_types@ == seq![CoreType::Creature]
    &&& effect->Token_0.colors@ == seq![color]
    &&& effect->Token_0.keywords@ == keywords
    &&& effect->Token_0.count == (QuantityExpr::Fixed { value: count })
    &&& !effect->Token_0.tapped
}

/// Whether an effect makes a Treasure.
pub open spec fn makes_treasure(effect: Effect) -> bool {
    &&& effect is Token
    &&& effect->Token_0.name == Text::Literal("Treasure")
    &&& effect->Token_0.core_types@ == seq![CoreType::Artifact]
    &&& effect->Token_0.subtypes@ == seq![Text::Literal("Treasure")]
    &&& effect->Token_0.count == (QuantityExpr::Fixed { value: 1 })
}

/// Whether an effect puts so many +1/+1 counters on a target creature.
pub open spec fn strengthens(effect: Effect, n: i32) -> bool {
    &&& effect is PutCounter
    &&& effect->PutCounter_counter_type == CounterType::Plus1Plus1
    &&& effect->PutCounter_count == (QuantityExpr::Fixed { value: n })
    &&& is_any_creature(effect->PutCounter_target)
}

/// Whether an ability just has its effect: nothing follows it, nobody pays to avoid it, and it
/// concerns no players but its controller and its targets.
pub open spec fn stands_alone(ability: ResolvedAbility) -> bool {
    ability.sub_ability is None && ability.unless_pay is None && ability.player_scope is None
        && ability.duration is None
}

/// Whether an ability has each of some players lose so much life.
pub open spec fn drains(ability: ResolvedAbility, n: i32, scope: PlayerFilter) -> bool {
    &&& *ability.effect is LoseLife
    &&& ability.effect->LoseLife_amount == (QuantityExpr::Fixed { value: n })
    &&& ability.effect->LoseLife_target is None
    &&& ability.player_scope == Some(scope)
}

/// Every room's ability is its player's, and comes from the player's dungeon.
pub proof fn law_room_controller(
    dungeon: DungeonId,
    room: u8,
    source: ObjectId,
    player: PlayerId,
)
    ensures
        room_ability(dungeon, room, source, player).source_id == source,
        room_ability(dungeon, room, source, player).controller == player,
        room_ability(dungeon, room, source, player).targets@.len() == 0,
        !room_ability(dungeon, room, source, player).optional,
{
    lemma_items_of(Seq::<crate::ids::TargetRef>::empty());
}

/// The rooms of Lost Mine of Phandelver: scry 1; a Goblin; a Treasure; a +1/+1 counter; one life
/// from each opponent for one of yours; -4/-0 until your next turn; a card.
pub proof fn law_lost_mine(source: ObjectId, player: PlayerId)
    ensures
        ({
            let d = DungeonId::LostMineOfPhandelver;
            let at = |room: u8| room_ability(d, room, source, player);
            &&& *at(0).effect == (Effect::Scry { count: QuantityExpr::Fixed { value: 1 } })
            &&& makes_creatures(*at(1).effect, "Goblin", 1, 1, ManaColor::Red, seq![], 1)
            &&& makes_treasure(*at(2).effect)
            &&& strengthens(*at(3).effect, 1)
            &&& drains(at(4), 1, PlayerFilter::Opponent)
            &&& at(4).unless_pay is None
            &&& at(4).sub_ability is Some
            &&& *at(4).sub_ability->0.effect == (Effect::GainLife {
                amount: QuantityExpr::Fixed { value: 1 },
                player: GainLifePlayer::Controller,
            })
            &&& *at(5).effect is Pump
            &&& at(5).effect->Pump_power == PtValue::Fixed((-4) as i32)
            &&& at(5).effect->Pump_toughness == PtValue::Fixed(0)
            &&& is_any_creature(at(5).effect->Pump_target)
            &&& at(5).duration == Some(Duration::UntilYourNextTurn)
            &&& *at(6).effect == (Effect::Draw {
                count: QuantityExpr::Fixed { value: 1 },
                target: TargetFilter::Controller,
            })
            &&& stands_alone(at(0)) && stands_alone(at(1)) && stands_alone(at(2))
                && stands_alone(at(3)) && stands_alone(at(6))
        }),
{
    lemma_items_of(seq![TypeFilter::Creature]);
    lemma_items_of(Seq::<crate::ability::FilterProp>::empty());
    lemma_items_of(seq![CoreType::Creature]);
    lemma_items_of(seq![CoreType::Artifact]);
    lemma_items_of(seq![ManaColor::Red]);
    lemma_items_of(Seq::<Keyword>::empty());
    lemma_items_of(seq![Text::Literal("Treasure")]);
}

/// The rooms of Dungeon of the Mad Mage: one life; scry 1; a Treasure; no attack for a creature
/// until your next turn; scry 2; two cards to play; two Skeletons; scry 3; three cards, of which
/// one is free.
pub proof fn law_mad_mage(source: ObjectId, player: PlayerId)
    ensures
        ({
            let d = DungeonId::DungeonOfTheMadMage;
            let at = |room: u8| room_ability(d, room, source, player);
            &&& *at(0).effect == (Effect::GainLife {
                amount: QuantityExpr::Fixed { value: 1 },
                player: GainLifePlayer::Controller,
            })
            &&& *at(1).effect == (Effect::Scry { count: QuantityExpr::Fixed { value: 1 } })
            &&& makes_treasure(*at(2).effect)
            &&& *at(3).effect is CantAttack
            &&& is_any_creature(at(3).effect->CantAttack_target)
            &&& at(3).duration == Some(Duration::UntilYourNextTurn)
            &&& *at(4).effect == (Effect::Scry { count: QuantityExpr::Fixed { value: 2 } })
            &&& *at(5).effect == (Effect::ExileTopToPlay {
                count: QuantityExpr::Fixed { value: 2 },
            })
            &&& makes_creatures(*at(6).effect, "Skeleton", 1, 1, ManaColor::Black, seq![], 2)
            &&& *at(7).effect == (Effect::Scry { count: QuantityExpr::Fixed { value: 3 } })
            &&& *at(8).effect == (Effect::DrawAndCastOneFree {
                count: QuantityExpr::Fixed { value: 3 },
            })
            &&& stands_alone(at(0)) && stands_alone(at(1)) && stands_alone(at(2))
                && stands_alone(at(4)) && stands_alone(at(5)) && stands_alone(at(6))
                && stands_alone(at(7)) && stands_alone(at(8))
        }),
{
    lemma_items_of(seq![TypeFilter::Creature]);
    lemma_items_of(Seq::<crate::ability::FilterProp>::empty());
    lemma_items_of(seq![CoreType::Creature]);
    lemma_items_of(seq![CoreType::Artifact]);
    lemma_items_of(seq![ManaColor::Black]);
    lemma_items_of(Seq::<Keyword>::empty());
    lemma_items_of(seq![Text::Literal("Treasure")]);
}

/// Whether an ability has its player sacrifice one permanent of a kind.
pub open spec fn sacrifices(ability: ResolvedAbility, kind: TypeFilter) -> bool {
    &&& *ability.effect is Sacrifice
    &&& is_own(ability.effect->Sacrifice_target, kind)
    &&& ability.effect->Sacrifice_count == (QuantityExpr::Fixed { value: 1 })
    &&& ability.effect->Sacrifice_min_count == 1
}

/// The rooms of Tomb of Annihilation: one life from each player; two life from each who does not
/// discard a card; a card, an artifact, a creature and a land; two life from each who does not
/// sacrifice one of those; and The Atropal.
pub proof fn law_tomb(source: ObjectId, player: PlayerId)
    ensures
        ({
            let d = DungeonId::TombOfAnnihilation;
            let at = |room: u8| room_ability(d, room, source, player);
            let first = *at(2).sub_ability->0;
            let second = *first.sub_ability->0;
            let third = *second.sub_ability->0;
            &&& drains(at(0), 1, PlayerFilter::All) && at(0).unless_pay is None
            &&& drains(at(1), 2, PlayerFilter::All) && at(1).unless_pay is Some
            &&& at(1).unless_pay->0.payer == TargetFilter::ScopedPlayer
            &&& at(1).unless_pay->0.cost is Discard
            &&& at(1).unless_pay->0.cost->Discard_count == (QuantityExpr::Fixed { value: 1 })
            &&& *at(2).effect == (Effect::Discard {
                count: QuantityExpr::Fixed { value: 1 },
                target: TargetFilter::Controller,
            })
            &&& at(2).sub_ability is Some && sacrifices(first, TypeFilter::Artifact)
            &&& first.sub_ability is Some && sacrifices(second, TypeFilter::Creature)
            &&& second.sub_ability is Some && sacrifices(third, TypeFilter::Land)
            &&& third.sub_ability is None
            &&& drains(at(3), 2, PlayerFilter::All) && at(3).unless_pay is Some
            &&& at(3).unless_pay->0.payer == TargetFilter::ScopedPlayer
            &&& at(3).unless_pay->0.cost is Sacrifice
            &&& at(3).unless_pay->0.cost->Sacrifice_count == 1
            &&& at(0).sub_ability is None && at(1).sub_ability is None && at(3).sub_ability is None
            &&& makes_creatures(
                *at(4).effect,
                "The Atropal",
                4,
                4,
                ManaColor::Black,
                seq![Keyword::Deathtouch],
                1,
            )
            &&& at(4).effect->Token_0.supertypes@ == seq![Supertype::Legendary]
            &&& stands_alone(at(4))
        }),
{
    lemma_items_of(seq![TypeFilter::Artifact]);
    lemma_items_of(seq![TypeFilter::Creature]);
    lemma_items_of(seq![TypeFilter::Land]);
    lemma_items_of(Seq::<crate::ability::FilterProp>::empty());
    lemma_items_of(seq![CoreType::Creature]);
    lemma_items_of(seq![ManaColor::Black]);
    lemma_items_of(seq![Keyword::Deathtouch]);
    lemma_items_of(seq![Supertype::Legendary]);
}

/// The rooms of Undercity: a basic land; two +1/+1 counters; scry 2; five life from a player; a
/// goaded creature; a Treasure; a card; a Skeleton with menace; and a creature from the top ten
/// with three +1/+1 counters.
pub proof fn law_undercity(source: ObjectId, player: PlayerId)
    ensures
        ({
            let d = DungeonId::Undercity;
            let at = |room: u8| room_ability(d, room, source, player);
            &&& *at(0).effect == Effect::SearchBasicLand
            &&& strengthens(*at(1).effect, 2)
            &&& *at(2).effect == (Effect::Scry { count: QuantityExpr::Fixed { value: 2 } })
            &&& *at(3).effect == (Effect::LoseLife {
                amount: QuantityExpr::Fixed { value: 5 },
                target: Some(TargetFilter::Player),
            })
            &&& *at(4).effect is Goad && is_any_creature(at(4).effect->Goad_target)
            &&& makes_treasure(*at(5).effect)
            &&& *at(6).effect == (Effect::Draw {
                count: QuantityExpr::Fixed { value: 1 },
                target: TargetFilter::Controller,
            })
            &&& makes_creatures(
                *at(7).effect,
                "Skeleton",
                4,
                1,
                ManaColor::Black,
                seq![Keyword::Menace],
                1,
            )
            &&& *at(8).effect == (Effect::RaiseFromTop {
                revealed: QuantityExpr::Fixed { value: 10 },
                counters: QuantityExpr::Fixed { value: 3 },
            })
            &&& forall|room: u8| stands_alone(#[trigger] room_ability(d, room, source, player))
        }),
{
    lemma_items_of(seq![TypeFilter::Creature]);
    lemma_items_of(Seq::<crate::ability::FilterProp>::empty());
    lemma_items_of(seq![CoreType::Creature]);
    lemma_items_of(seq![CoreType::Artifact]);
    lemma_items_of(seq![ManaColor::Black]);
    lemma_items_of(seq![Keyword::Menace]);
    lemma_items_of(seq![Text::Literal("Treasure")]);
}

} // verus!
