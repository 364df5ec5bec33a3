//! What happens in the game, as triggered abilities see it.

use crate::ids::{
    AttackTarget, CardId, CoreType, CounterType, DungeonId, KeywordKind, ManaType, ObjectId,
    Phase, PlayerId, Supertype, TargetRef, Zone,
};
use crate::ability::Keyword;
use crate::list::{list_of, List, Same};
use crate::text::Text;
use std::rc::Rc;
use vstd::prelude::*;

verus! {

#[derive(Clone, Copy, Debug, PartialEq, Eq, Structural)]
pub enum EffectKind {
    RingTemptsYou,
    VentureIntoDungeon,
    VentureInto,
    TakeTheInitiative,
    Token,
}

/// An object that changed zones, as it was in the zone it left (CR 603.10a).
#[derive(Debug, PartialEq, Eq)]
pub struct ZoneChangeRecord {
    pub object_id: ObjectId,
    pub name: Text,
    pub core_types: List<CoreType>,
    pub subtypes: List<Text>,
    pub supertypes: List<Supertype>,
    pub keywords: List<KeywordKind>,
    pub power: Option<i32>,
    pub toughness: Option<i32>,
    pub mana_value: u32,
    pub controller: PlayerId,
    pub owner: PlayerId,
    pub from_zone: Option<Zone>,
    pub to_zone: Zone,
    pub is_token: bool,
    pub is_commander: bool,
}

impl ZoneChangeRecord {
    /// A record of which nothing but the move itself is known.
    pub fn minimal(object_id: ObjectId, from: Option<Zone>, to: Zone) -> (r: Self)
        ensures
            r == (ZoneChangeRecord {
                object_id,
                name: Text::Literal(""),
                core_types: list_of(seq![]),
                subtypes: list_of(seq![]),
                supertypes: list_of(seq![]),
                keywords: list_of(seq![]),
                power: None,
                toughness: None,
                mana_value: 0,
                controller: PlayerId(0),
                owner: PlayerId(0),
                from_zone: from,
                to_zone: to,
                is_token: false,
                is_commander: false,
            }),
    {
        ZoneChangeRecord {
            object_id,
            name: Text::Literal(""),
            core_types: List::new(),
            subtypes: List::new(),
            supertypes: List::new(),
            keywords: List::new(),
            power: None,
            toughness: None,
            mana_value: 0,
            controller: PlayerId(0),
            owner: PlayerId(0),
            from_zone: from,
            to_zone: to,
            is_token: false,
            is_commander: false,
        }
    }
}

#[allow(inconsistent_fields)]
#[derive(Debug, PartialEq, Eq)]
pub enum GameEvent {
    ZoneChanged {
        object_id: ObjectId,
        from: Option<Zone>,
        to: Zone,
        record: Rc<ZoneChangeRecord>,
    },
    SpellCast { card_id: CardId, controller: PlayerId, object_id: ObjectId },
    AttackersDeclared {
        attacker_ids: List<ObjectId>,
        defending_player: PlayerId,
        attacks: List<(ObjectId, AttackTarget)>,
    },
    /// Each blocker with the attacker that it blocks.
    BlockersDeclared { assignments: List<(ObjectId, ObjectId)> },
    BecomesTarget { object_id: ObjectId, source_id: ObjectId },
    CardDrawn { player_id: PlayerId, object_id: ObjectId, nth_in_turn: u32, nth_in_step: u32 },
    PhaseChanged { phase: Phase },
    DamageDealt {
        source_id: ObjectId,
        target: TargetRef,
        amount: u32,
        is_combat: bool,
        excess: u32,
    },
    CombatDamageDealtToPlayer {
        player_id: PlayerId,
        source_amounts: List<(ObjectId, u32)>,
        total_damage: u32,
    },
    DamagePrevented { source_id: ObjectId, target: TargetRef, amount: u32 },
    LifeChanged { player_id: PlayerId, amount: i32 },
    CounterAdded { object_id: ObjectId, counter_type: CounterType, count: u32 },
    ManaAdded {
        player_id: PlayerId,
        mana_type: ManaType,
        source_id: ObjectId,
        tapped_for_mana: bool,
    },
    TokenCreated { object_id: ObjectId, name: Text },
    CreatureDestroyed { object_id: ObjectId },
    PermanentSacrificed { object_id: ObjectId, player_id: PlayerId },
    Discarded { player_id: PlayerId, object_id: ObjectId },
    CrimeCommitted { player_id: PlayerId },
    VehicleCrewed { vehicle_id: ObjectId, creatures: List<ObjectId> },
    RoomEntered {
        player_id: PlayerId,
        dungeon: DungeonId,
        room_index: u8,
        room_name: &'static str,
    },
    DungeonCompleted { player_id: PlayerId, dungeon: DungeonId },
    InitiativeTaken { player_id: PlayerId },
    MonarchChanged { player_id: PlayerId },
    RingTemptsYou { player_id: PlayerId },
    EffectResolved { kind: EffectKind, source_id: ObjectId },
    PlayerEliminated { player_id: PlayerId },
    GameOver { winner: Option<PlayerId> },
    StackPushed { object_id: ObjectId },
}

impl Clone for GameEvent {
    fn clone(&self) -> (r: Self)
        ensures
            r == *self,
    {
        match self {
            GameEvent::ZoneChanged { object_id, from, to, record } => GameEvent::ZoneChanged {
                object_id: *object_id,
                from: *from,
                to: *to,
                record: record.clone(),
            },
            GameEvent::SpellCast { card_id, controller, object_id } => GameEvent::SpellCast {
                card_id: *card_id,
                controller: *controller,
                object_id: *object_id,
            },
            GameEvent::AttackersDeclared { attacker_ids, defending_player, attacks } =>
                GameEvent::AttackersDeclared {
                    attacker_ids: attacker_ids.clone(),
                    defending_player: *defending_player,
                    attacks: attacks.clone(),
                },
            GameEvent::BlockersDeclared { assignments } => GameEvent::BlockersDeclared {
                assignments: assignments.clone(),
            },
            GameEvent::BecomesTarget { object_id, source_id } => GameEvent::BecomesTarget {
                object_id: *object_id,
                source_id: *source_id,
            },
            GameEvent::CardDrawn { player_id, object_id, nth_in_turn, nth_in_step } =>
                GameEvent::CardDrawn {
                    player_id: *player_id,
                    object_id: *object_id,
                    nth_in_turn: *nth_in_turn,
                    nth_in_step: *nth_in_step,
                },
            GameEvent::PhaseChanged { phase } => GameEvent::PhaseChanged { phase: *phase },
            GameEvent::DamageDealt { source_id, target, amount, is_combat, excess } =>
                GameEvent::DamageDealt {
                    source_id: *source_id,
                    target: *target,
                    amount: *amount,
                    is_combat: *is_combat,
                    excess: *excess,
                },
            GameEvent::CombatDamageDealtToPlayer { player_id, source_amounts, total_damage } =>
                GameEvent::CombatDamageDealtToPlayer {
                    player_id: *player_id,
                    source_amounts: source_amounts.clone(),
                    total_damage: *total_damage,
                },
            GameEvent::DamagePrevented { source_id, target, amount } => GameEvent::DamagePrevented {
                source_id: *source_id,
                target: *target,
                amount: *amount,
            },
            GameEvent::LifeChanged { player_id, amount } => GameEvent::LifeChanged {
                player_id: *player_id,
                amount: *amount,
            },
            GameEvent::CounterAdded { object_id, counter_type, count } => GameEvent::CounterAdded {
                object_id: *object_id,
                counter_type: *counter_type,
                count: *count,
            },
            GameEvent::ManaAdded { player_id, mana_type, source_id, tapped_for_mana } =>
                GameEvent::ManaAdded {
                    player_id: *player_id,
                    mana_type: *mana_type,
                    source_id: *source_id,
                    tapped_for_mana: *tapped_for_mana,
                },
            GameEvent::TokenCreated { object_id, name } => GameEvent::TokenCreated {
                object_id: *object_id,
                name: name.clone(),
            },
            GameEvent::CreatureDestroyed { object_id } => GameEvent::CreatureDestroyed {
                object_id: *object_id,
            },
            GameEvent::PermanentSacrificed { object_id, player_id } =>
                GameEvent::PermanentSacrificed { object_id: *object_id, player_id: *player_id },
            GameEvent::Discarded { player_id, object_id } => GameEvent::Discarded {
                player_id: *player_id,
                object_id: *object_id,
            },
            GameEvent::CrimeCommitted { player_id } => GameEvent::CrimeCommitted {
                player_id: *player_id,
            },
            GameEvent::VehicleCrewed { vehicle_id, creatures } => GameEvent::VehicleCrewed {
                vehicle_id: *vehicle_id,
                creatures: creatures.clone(),
            },
            GameEvent::RoomEntered { player_id, dungeon, room_index, room_name } =>
                GameEvent::RoomEntered {
                    player_id: *player_id,
                    dungeon: *dungeon,
                    room_index: *room_index,
                    room_name,
                },
            GameEvent::DungeonCompleted { player_id, dungeon } => GameEvent::DungeonCompleted {
                player_id: *player_id,
                dungeon: *dungeon,
            },
            GameEvent::InitiativeTaken { player_id } => GameEvent::InitiativeTaken {
                player_id: *player_id,
            },
            GameEvent::MonarchChanged { player_id } => GameEvent::MonarchChanged {
                player_id: *player_id,
            },
            GameEvent::RingTemptsYou { player_id } => GameEvent::RingTemptsYou {
                player_id: *player_id,
            },
            GameEvent::EffectResolved { kind, source_id } => GameEvent::EffectResolved {
                kind: *kind,
                source_id: *source_id,
            },
            GameEvent::PlayerEliminated { player_id } => GameEvent::PlayerEliminated {
                player_id: *player_id,
            },
            GameEvent::GameOver { winner } => GameEvent::GameOver { winner: *winner },
            GameEvent::StackPushed { object_id } => GameEvent::StackPushed {
                object_id: *object_id,
            },
        }
    }
}

pub fn copy_event(event: &Option<GameEvent>) -> (r: Option<GameEvent>)
    ensures
        r == *event,
{
    match event {
        None => None,
        Some(e) => Some(e.clone()),
    }
}

/// Whether two lists of texts read the same, item by item.
pub open spec fn texts_read(a: List<Text>, b: List<Text>) -> bool
    decreases a,
{
    match (a.node, b.node) {
        (None, None) => true,
        (Some(x), Some(y)) => x.item@ == y.item@ && texts_read(x.rest, y.rest),
        _ => false,
    }
}

fn same_texts(a: &List<Text>, b: &List<Text>) -> (r: bool)
    ensures
        r == texts_read(*a, *b),
    decreases a,
{
    match (&a.node, &b.node) {
        (None, None) => true,
        (Some(x), Some(y)) => x.item.reads(&y.item) && same_texts(&x.rest, &y.rest),
        _ => false,
    }
}

/// Whether two records tell the same of an object.
pub open spec fn records_agree(a: ZoneChangeRecord, b: ZoneChangeRecord) -> bool {
    &&& a.object_id == b.object_id
    &&& a.name@ == b.name@
    &&& a.core_types == b.core_types
    &&& texts_read(a.subtypes, b.subtypes)
    &&& a.supertypes == b.supertypes
    &&& a.keywords == b.keywords
    &&& a.power == b.power
    &&& a.toughness == b.toughness
    &&& a.mana_value == b.mana_value
    &&& a.controller == b.controller
    &&& a.owner == b.owner
    &&& a.from_zone == b.from_zone
    &&& a.to_zone == b.to_zone
    &&& a.is_token == b.is_token
    &&& a.is_commander == b.is_commander
}

fn same_record(a: &ZoneChangeRecord, b: &ZoneChangeRecord) -> (r: bool)
    ensures
        r == records_agree(*a, *b),
{
    a.object_id == b.object_id && a.name.reads(&b.name) && a.core_types.same(&b.core_types)
        && same_texts(&a.subtypes, &b.subtypes) && a.supertypes.same(&b.supertypes)
        && a.keywords.same(&b.keywords) && a.power == b.power && a.toughness == b.toughness
        && a.mana_value == b.mana_value && a.controller == b.controller && a.owner == b.owner
        && a.from_zone == b.from_zone && a.to_zone == b.to_zone && a.is_token == b.is_token
        && a.is_commander == b.is_commander
}

/// Whether two events are the same event: equal, where text counts by what it reads.
pub open spec fn events_agree(a: GameEvent, b: GameEvent) -> bool {
    match (a, b) {
        (
            GameEvent::ZoneChanged { object_id, from, to, record },
            GameEvent::ZoneChanged { object_id: o2, from: f2, to: t2, record: r2 },
        ) => object_id == o2 && from == f2 && to == t2 && records_agree(*record, *r2),
        (
            GameEvent::TokenCreated { object_id, name },
            GameEvent::TokenCreated { object_id: o2, name: n2 },
        ) => object_id == o2 && name@ == n2@,
        (
            GameEvent::RoomEntered { player_id, dungeon, room_index, room_name },
            GameEvent::RoomEntered { player_id: p2, dungeon: d2, room_index: r2, room_name: n2 },
        ) => player_id == p2 && dungeon == d2 && room_index == r2 && room_name@ == n2@,
        _ => a == b,
    }
}

impl GameEvent {
    pub fn agrees(&self, other: &GameEvent) -> (r: bool)
        ensures
            r == events_agree(*self, *other),
    {
        match (self, other) {
            (
                GameEvent::ZoneChanged { object_id, from, to, record },
                GameEvent::ZoneChanged { object_id: o2, from: f2, to: t2, record: r2 },
            ) => *object_id == *o2 && *from == *f2 && *to == *t2 && same_record(record, r2),
            (
                GameEvent::SpellCast { card_id, controller, object_id },
                GameEvent::SpellCast { card_id: c2, controller: p2, object_id: o2 },
            ) => *card_id == *c2 && *controller == *p2 && *object_id == *o2,
            (
                GameEvent::AttackersDeclared { attacker_ids, defending_player, attacks },
                GameEvent::AttackersDeclared {
                    attacker_ids: i2,
                    defending_player: d2,
                    attacks: a2,
                },
            ) => attacker_ids.same(i2) && *defending_player == *d2 && attacks.same(a2),
            (
                GameEvent::BlockersDeclared { assignments },
                GameEvent::BlockersDeclared { assignments: a2 },
            ) => assignments.same(a2),
            (
                GameEvent::BecomesTarget { object_id, source_id },
                GameEvent::BecomesTarget { object_id: o2, source_id: s2 },
            ) => *object_id == *o2 && *source_id == *s2,
            (
                GameEvent::CardDrawn { player_id, object_id, nth_in_turn, nth_in_step },
                GameEvent::CardDrawn {
                    player_id: p2,
                    object_id: o2,
                    nth_in_turn: t2,
                    nth_in_step: s2,
                },
            ) => *player_id == *p2 && *object_id == *o2 && *nth_in_turn == *t2 && *nth_in_step
                == *s2,
            (GameEvent::PhaseChanged { phase }, GameEvent::PhaseChanged { phase: p2 }) => *phase
                == *p2,
            (
                GameEvent::DamageDealt { source_id, target, amount, is_combat, excess },
                GameEvent::DamageDealt {
                    source_id: s2,
                    target: t2,
                    amount: a2,
                    is_combat: c2,
                    excess: e2,
                },
            ) => *source_id == *s2 && *target == *t2 && *amount == *a2 && *is_combat == *c2
                && *excess == *e2,
            (
                GameEvent::CombatDamageDealtToPlayer { player_id, source_amounts, total_damage },
                GameEvent::CombatDamageDealtToPlayer {
                    player_id: p2,
                    source_amounts: s2,
                    total_damage: t2,
                },
            ) => *player_id == *p2 && source_amounts.same(s2) && *total_damage == *t2,
            (
                GameEvent::DamagePrevented { source_id, target, amount },
                GameEvent::DamagePrevented { source_id: s2, target: t2, amount: a2 },
            ) => *source_id == *s2 && *target == *t2 && *amount == *a2,
            (
                GameEvent::LifeChanged { player_id, amount },
                GameEvent::LifeChanged { player_id: p2, amount: a2 },
            ) => *player_id == *p2 && *amount == *a2,
            (
                GameEvent::CounterAdded { object_id, counter_type, count },
                GameEvent::CounterAdded { object_id: o2, counter_type: k2, count: c2 },
            ) => *object_id == *o2 && *counter_type == *k2 && *count == *c2,
            (
                GameEvent::ManaAdded { player_id, mana_type, source_id, tapped_for_mana },
                GameEvent::ManaAdded {
                    player_id: p2,
                    mana_type: m2,
                    source_id: s2,
                    tapped_for_mana: t2,
                },
            ) => *player_id == *p2 && *mana_type == *m2 && *source_id == *s2 && *tapped_for_mana
                == *t2,
            (
                GameEvent::TokenCreated { object_id, name },
                GameEvent::TokenCreated { object_id: o2, name: n2 },
            ) => *object_id == *o2 && name.reads(n2),
            (
                GameEvent::CreatureDestroyed { object_id },
                GameEvent::CreatureDestroyed { object_id: o2 },
            ) => *object_id == *o2,
            (
                GameEvent::PermanentSacrificed { object_id, player_id },
                GameEvent::PermanentSacrificed { object_id: o2, player_id: p2 },
            ) => *object_id == *o2 && *player_id == *p2,
            (
                GameEvent::Discarded { player_id, object_id },
                GameEvent::Discarded { player_id: p2, object_id: o2 },
            ) => *player_id == *p2 && *object_id == *o2,
            (
                GameEvent::CrimeCommitted { player_id },
                GameEvent::CrimeCommitted { player_id: p2 },
            ) => *player_id == *p2,
            (
                GameEvent::VehicleCrewed { vehicle_id, creatures },
                GameEvent::VehicleCrewed { vehicle_id: v2, creatures: c2 },
            ) => *vehicle_id == *v2 && creatures.same(c2),
            (
                GameEvent::RoomEntered { player_id, dungeon, room_index, room_name },
                GameEvent::RoomEntered {
                    player_id: p2,
                    dungeon: d2,
                    room_index: r2,
                    room_name: n2,
                },
            ) => *player_id == *p2 && *dungeon == *d2 && *room_index == *r2
                && Text::Literal(room_name).reads(&Text::Literal(n2)),
            (
                GameEvent::DungeonCompleted { player_id, dungeon },
                GameEvent::DungeonCompleted { player_id: p2, dungeon: d2 },
            ) => *player_id == *p2 && *dungeon == *d2,
            (
                GameEvent::InitiativeTaken { player_id },
                GameEvent::InitiativeTaken { player_id: p2 },
            ) => *player_id == *p2,
            (
                GameEvent::MonarchChanged { player_id },
                GameEvent::MonarchChanged { player_id: p2 },
            ) => *player_id == *p2,
            (
                GameEvent::RingTemptsYou { player_id },
                GameEvent::RingTemptsYou { player_id: p2 },
            ) => *player_id == *p2,
            (
                GameEvent::EffectResolved { kind, source_id },
                GameEvent::EffectResolved { kind: k2, source_id: s2 },
            ) => *kind == *k2 && *source_id == *s2,
            (
                GameEvent::PlayerEliminated { player_id },
                GameEvent::PlayerEliminated { player_id: p2 },
            ) => *player_id == *p2,
            (GameEvent::GameOver { winner }, GameEvent::GameOver { winner: w2 }) => *winner == *w2,
            (GameEvent::StackPushed { object_id }, GameEvent::StackPushed { object_id: o2 }) =>
                *object_id == *o2,
            _ => false,
        }
    }
}

/// The kinds of a list of keywords, in order.
pub open spec fn keyword_kinds(keywords: List<Keyword>) -> List<KeywordKind>
    decreases keywords,
{
    match keywords.node {
        None => List { node: None },
        Some(n) => List {
            node: Some(
                Rc::new(
                    crate::list::Node {
                        item: Rc::new(n.item.kind_spec()),
                        rest: keyword_kinds(n.rest),
                    },
                ),
            ),
        },
    }
}

pub fn kinds_of(keywords: &List<Keyword>) -> (r: List<KeywordKind>)
    ensures
        r == keyword_kinds(*keywords),
    decreases keywords,
{
    match &keywords.node {
        None => List { node: None },
        Some(n) => List {
            node: Some(
                Rc::new(
                    crate::list::Node { item: Rc::new(n.item.kind()), rest: kinds_of(&n.rest) },
                ),
            ),
        },
    }
}

} // verus!
