//! Identifiers and the small closed sets of the rules.

use crate::list::Same;
use vstd::prelude::*;

verus! {

#[derive(Clone, Copy, Debug, PartialEq, Eq, PartialOrd, Ord, Hash, Structural)]
pub struct ObjectId(pub u64);

#[derive(Clone, Copy, Debug, PartialEq, Eq, PartialOrd, Ord, Hash, Structural)]
pub struct CardId(pub u64);

#[derive(Clone, Copy, Debug, PartialEq, Eq, PartialOrd, Ord, Hash, Structural)]
pub struct PlayerId(pub u8);

#[derive(Clone, Copy, Debug, PartialEq, Eq, PartialOrd, Ord, Hash, Structural)]
pub struct TrackedSetId(pub u64);

#[derive(Clone, Copy, Debug, PartialEq, Eq, Structural)]
pub enum Zone {
    Library,
    Hand,
    Battlefield,
    Graveyard,
    Stack,
    Exile,
    Command,
}

#[derive(Clone, Copy, Debug, PartialEq, Eq, Structural)]
pub enum Phase {
    Untap,
    Upkeep,
    Draw,
    PreCombatMain,
    BeginCombat,
    DeclareAttackers,
    DeclareBlockers,
    CombatDamage,
    EndCombat,
    PostCombatMain,
    End,
    Cleanup,
}

#[derive(Clone, Copy, Debug, PartialEq, Eq, Structural)]
pub enum CoreType {
    Artifact,
    Battle,
    Creature,
    Enchantment,
    Instant,
    Kindred,
    Land,
    Planeswalker,
    Sorcery,
}

#[derive(Clone, Copy, Debug, PartialEq, Eq, Structural)]
pub enum Supertype {
    Basic,
    Legendary,
    Snow,
    World,
}

#[derive(Clone, Copy, Debug, PartialEq, Eq, Structural)]
pub enum ManaColor {
    White,
    Blue,
    Black,
    Red,
    Green,
}

#[derive(Clone, Copy, Debug, PartialEq, Eq, Structural)]
pub enum ManaType {
    White,
    Blue,
    Black,
    Red,
    Green,
    Colorless,
}

#[derive(Clone, Copy, Debug, PartialEq, Eq, Structural)]
pub enum ManaExpiry {
    EndOfCombat,
    EndOfTurn,
}

#[derive(Clone, Copy, Debug, PartialEq, Eq, Structural)]
pub enum CounterType {
    Plus1Plus1,
    Minus1Minus1,
    Loyalty,
    Lore,
    Charge,
    Time,
    Level,
    /// A counter that the rules know only by its name, numbered by the card database.
    Named(u32),
}

#[derive(Clone, Copy, Debug, PartialEq, Eq, Structural)]
pub enum DungeonId {
    LostMineOfPhandelver,
    DungeonOfTheMadMage,
    TombOfAnnihilation,
    Undercity,
}

#[derive(Clone, Copy, Debug, PartialEq, Eq, Structural)]
pub enum TargetRef {
    Object(ObjectId),
    Player(PlayerId),
}

#[derive(Clone, Copy, Debug, PartialEq, Eq, Structural)]
pub enum AttackTarget {
    Player(PlayerId),
    Planeswalker(ObjectId),
    Battle(ObjectId),
}

#[derive(Clone, Copy, Debug, PartialEq, Eq, Structural)]
pub enum KickerVariant {
    First,
    Second,
}

#[derive(Clone, Copy, Debug, PartialEq, Eq, Structural)]
pub enum CastVariant {
    Ninjutsu,
    Sneak,
    Escape,
    Evoke,
    Flashback,
}

#[derive(Clone, Copy, Debug, PartialEq, Eq, Structural)]
pub enum CastTimingPermission {
    AsThoughFlash,
    FlashKeyword,
}

#[derive(Clone, Copy, Debug, PartialEq, Eq, Structural)]
pub enum KeywordKind {
    Cascade,
    Casualty,
    Deathtouch,
    Decayed,
    DoubleStrike,
    Exploit,
    Firebending,
    FirstStrike,
    Flying,
    Haste,
    Indestructible,
    Infect,
    Lifelink,
    Menace,
    Protection,
    Prowess,
    Ravenous,
    Reach,
    Shroud,
    Soulbond,
    Storm,
    Toxic,
    Trample,
    TrampleOverPlaneswalkers,
    Vigilance,
    Ward,
    Wither,
}

#[derive(Clone, Copy, Debug, PartialEq, Eq, Structural)]
pub enum ControllerRef {
    You,
    Opponent,
    Any,
}

#[derive(Clone, Copy, Debug, PartialEq, Eq, Structural)]
pub enum Comparator {
    LT,
    LE,
    EQ,
    NE,
    GE,
    GT,
}

impl Comparator {
    pub open spec fn holds(self, lhs: int, rhs: int) -> bool {
        match self {
            Comparator::LT => lhs < rhs,
            Comparator::LE => lhs <= rhs,
            Comparator::EQ => lhs == rhs,
            Comparator::NE => lhs != rhs,
            Comparator::GE => lhs >= rhs,
            Comparator::GT => lhs > rhs,
        }
    }

    pub fn evaluate(&self, lhs: i128, rhs: i128) -> (r: bool)
        ensures
            r == self.holds(lhs as int, rhs as int),
    {
        match self {
            Comparator::LT => lhs < rhs,
            Comparator::LE => lhs <= rhs,
            Comparator::EQ => lhs == rhs,
            Comparator::NE => lhs != rhs,
            Comparator::GE => lhs >= rhs,
            Comparator::GT => lhs > rhs,
        }
    }
}

impl Same for ObjectId {
    fn same(&self, other: &Self) -> (r: bool) {
        *self == *other
    }
}

impl Same for PlayerId {
    fn same(&self, other: &Self) -> (r: bool) {
        *self == *other
    }
}

impl Same for TrackedSetId {
    fn same(&self, other: &Self) -> (r: bool) {
        *self == *other
    }
}

impl Same for Zone {
    fn same(&self, other: &Self) -> (r: bool) {
        *self == *other
    }
}

impl Same for Phase {
    fn same(&self, other: &Self) -> (r: bool) {
        *self == *other
    }
}

impl Same for CoreType {
    fn same(&self, other: &Self) -> (r: bool) {
        *self == *other
    }
}

impl Same for Supertype {
    fn same(&self, other: &Self) -> (r: bool) {
        *self == *other
    }
}

impl Same for ManaColor {
    fn same(&self, other: &Self) -> (r: bool) {
        *self == *other
    }
}

impl Same for CounterType {
    fn same(&self, other: &Self) -> (r: bool) {
        *self == *other
    }
}

impl Same for DungeonId {
    fn same(&self, other: &Self) -> (r: bool) {
        *self == *other
    }
}

impl Same for TargetRef {
    fn same(&self, other: &Self) -> (r: bool) {
        *self == *other
    }
}

impl Same for AttackTarget {
    fn same(&self, other: &Self) -> (r: bool) {
        *self == *other
    }
}

impl Same for KickerVariant {
    fn same(&self, other: &Self) -> (r: bool) {
        *self == *other
    }
}

impl Same for KeywordKind {
    fn same(&self, other: &Self) -> (r: bool) {
        *self == *other
    }
}

/// Whether `id` stands in `ids`.
pub fn holds_player(ids: &Vec<PlayerId>, id: PlayerId) -> (r: bool)
    ensures
        r == ids@.contains(id),
{
    let mut i: usize = 0;
    while i < ids.len()
        invariant
            i <= ids@.len(),
            forall|j: int| 0 <= j < i ==> ids@[j] != id,
        decreases ids@.len() - i,
    {
        if ids[i] == id {
            assert(ids@[i as int] == id);
            return true;
        }
        i = i + 1;
    }
    false
}

} // verus!
