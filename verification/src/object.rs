//! Objects, players, and the snapshots that outlive them.

use crate::ability::{
    has_kind, keywords_have, Keyword, ReplacementDefinition, SolveCondition, StaticDefinition,
    TriggerDefinition,
};
use crate::ids::{
    CardId, CastTimingPermission, CastVariant, CoreType, CounterType, KeywordKind, KickerVariant,
    ManaColor, ManaExpiry, ManaType, ObjectId, PlayerId, Supertype, Zone,
};
use crate::list::{list_of, List, Node};
use crate::text::Text;
use std::rc::Rc;
use vstd::prelude::*;

verus! {

#[derive(Debug, PartialEq, Eq)]
pub struct CardType {
    pub supertypes: List<Supertype>,
    pub core_types: List<CoreType>,
    pub subtypes: List<Text>,
}

impl Clone for CardType {
    fn clone(&self) -> (r: Self)
        ensures
            r == *self,
    {
        CardType {
            supertypes: self.supertypes.clone(),
            core_types: self.core_types.clone(),
            subtypes: self.subtypes.clone(),
        }
    }
}

/// The counters on an object: how many of each type.
#[derive(Debug, PartialEq, Eq)]
pub struct Counters {
    pub entries: List<(CounterType, u32)>,
}

/// What the entry for a type of counter holds, where there is one.
pub open spec fn counter_entry(entries: List<(CounterType, u32)>, kind: CounterType) -> Option<u32>
    decreases entries,
{
    match entries.node {
        None => None,
        Some(n) => if n.item.0 == kind {
            Some(n.item.1)
        } else {
            counter_entry(n.rest, kind)
        },
    }
}

pub open spec fn counter_total(entries: List<(CounterType, u32)>) -> nat
    decreases entries,
{
    match entries.node {
        None => 0,
        Some(n) => n.item.1 as nat + counter_total(n.rest),
    }
}

/// The entries with the number for one type replaced, or added at the end.
pub open spec fn counter_put(
    entries: List<(CounterType, u32)>,
    kind: CounterType,
    count: u32,
) -> List<(CounterType, u32)>
    decreases entries,
{
    match entries.node {
        None => List {
            node: Some(Rc::new(Node { item: Rc::new((kind, count)), rest: List { node: None } })),
        },
        Some(n) => if n.item.0 == kind {
            List { node: Some(Rc::new(Node { item: Rc::new((kind, count)), rest: n.rest })) }
        } else {
            List {
                node: Some(
                    Rc::new(Node { item: n.item, rest: counter_put(n.rest, kind, count) }),
                ),
            }
        },
    }
}

/// Putting counters of one type changes the number of that type alone.
pub proof fn lemma_counter_put(
    entries: List<(CounterType, u32)>,
    kind: CounterType,
    count: u32,
    other: CounterType,
)
    ensures
        counter_entry(counter_put(entries, kind, count), other) == (if other == kind {
            Some(count)
        } else {
            counter_entry(entries, other)
        }),
    decreases entries,
{
    if entries.node is Some {
        lemma_counter_put(crate::list::list_rest(entries), kind, count, other);
    }
}

fn find_counter(entries: &List<(CounterType, u32)>, kind: CounterType) -> (r: Option<u32>)
    ensures
        r == counter_entry(*entries, kind),
    decreases entries,
{
    match &entries.node {
        None => None,
        Some(n) => if n.item.0 == kind {
            Some(n.item.1)
        } else {
            find_counter(&n.rest, kind)
        },
    }
}

fn put_counter(
    entries: &List<(CounterType, u32)>,
    kind: CounterType,
    count: u32,
) -> (r: List<(CounterType, u32)>)
    ensures
        r == counter_put(*entries, kind, count),
    decreases entries,
{
    match &entries.node {
        None => List {
            node: Some(Rc::new(Node { item: Rc::new((kind, count)), rest: List { node: None } })),
        },
        Some(n) => if n.item.0 == kind {
            List {
                node: Some(Rc::new(Node { item: Rc::new((kind, count)), rest: n.rest.clone() })),
            }
        } else {
            List {
                node: Some(
                    Rc::new(Node { item: n.item.clone(), rest: put_counter(&n.rest, kind, count) }),
                ),
            }
        },
    }
}

fn sum_counters(entries: &List<(CounterType, u32)>) -> (r: u32)
    ensures
        r == capped(counter_total(*entries)),
    decreases entries,
{
    match &entries.node {
        None => 0,
        Some(n) => n.item.1.saturating_add(sum_counters(&n.rest)),
    }
}

/// A count as the largest machine number that does not exceed it.
pub open spec fn capped(n: nat) -> u32 {
    if n <= u32::MAX {
        n as u32
    } else {
        u32::MAX
    }
}

/// The sum of two counts, or the largest count where it does not fit.
pub open spec fn sat_sum(a: u32, b: u32) -> u32 {
    capped((a + b) as nat)
}

impl Clone for Counters {
    fn clone(&self) -> (r: Self)
        ensures
            r == *self,
    {
        Counters { entries: self.entries.clone() }
    }
}

impl Counters {
    pub open spec fn count(self, kind: CounterType) -> u32 {
        match counter_entry(self.entries, kind) {
            None => 0,
            Some(n) => n,
        }
    }

    /// How many counters there are, of any type.
    pub open spec fn total(self) -> nat {
        counter_total(self.entries)
    }

    pub open spec fn put(self, kind: CounterType, count: u32) -> Counters {
        Counters { entries: counter_put(self.entries, kind, count) }
    }

    pub fn new() -> (r: Self)
        ensures
            r == (Counters { entries: list_of(seq![]) }),
    {
        Counters { entries: List::new() }
    }

    pub fn get(&self, kind: CounterType) -> (r: u32)
        ensures
            r == self.count(kind),
    {
        match find_counter(&self.entries, kind) {
            None => 0,
            Some(n) => n,
        }
    }

    pub fn insert(&mut self, kind: CounterType, count: u32)
        ensures
            *final(self) == old(self).put(kind, count),
    {
        self.entries = put_counter(&self.entries, kind, count);
    }

    /// How many counters there are in all, capped at the largest `u32`.
    pub fn sum(&self) -> (r: u32)
        ensures
            r == capped(self.total()),
    {
        sum_counters(&self.entries)
    }
}

/// The number of counters of a type is what the first entry for it says, or 0 where there is
/// none, and the number of all counters is the sum over the entries.
pub proof fn law_counters(
    kind: CounterType,
    count: u32,
    rest: List<(CounterType, u32)>,
    asked: CounterType,
)
    ensures
        ({
            let none = Counters { entries: List { node: None } };
            let counters = Counters {
                entries: List { node: Some(Rc::new(Node { item: Rc::new((kind, count)), rest })) },
            };
            let others = Counters { entries: rest };
            &&& none.count(asked) == 0
            &&& none.total() == 0
            &&& asked == kind ==> counters.count(asked) == count
            &&& asked != kind ==> counters.count(asked) == others.count(asked)
            &&& counters.total() == count + others.total()
        }),
{
}

/// How much mana of each color was spent.
#[derive(Clone, Copy, Debug, PartialEq, Eq, Structural)]
pub struct ColoredManaCount {
    pub white: u32,
    pub blue: u32,
    pub black: u32,
    pub red: u32,
    pub green: u32,
}

impl ColoredManaCount {
    pub open spec fn none() -> ColoredManaCount {
        ColoredManaCount { white: 0, blue: 0, black: 0, red: 0, green: 0 }
    }

    pub open spec fn of(self, color: ManaColor) -> u32 {
        match color {
            ManaColor::White => self.white,
            ManaColor::Blue => self.blue,
            ManaColor::Black => self.black,
            ManaColor::Red => self.red,
            ManaColor::Green => self.green,
        }
    }

    pub fn zero() -> (r: Self)
        ensures
            r == ColoredManaCount::none(),
    {
        ColoredManaCount { white: 0, blue: 0, black: 0, red: 0, green: 0 }
    }

    pub fn get(&self, color: ManaColor) -> (r: u32)
        ensures
            r == self.of(color),
    {
        match color {
            ManaColor::White => self.white,
            ManaColor::Blue => self.blue,
            ManaColor::Black => self.black,
            ManaColor::Red => self.red,
            ManaColor::Green => self.green,
        }
    }

    /// Adds to the count of one color, capped at the largest `u32`.
    pub fn add(&mut self, color: ManaColor, amount: u32)
        ensures
            forall|c: ManaColor| #[trigger]
                final(self).of(c) == (if c == color {
                    sat_sum(old(self).of(c), amount)
                } else {
                    old(self).of(c)
                }),
    {
        match color {
            ManaColor::White => {
                self.white = self.white.saturating_add(amount);
            },
            ManaColor::Blue => {
                self.blue = self.blue.saturating_add(amount);
            },
            ManaColor::Black => {
                self.black = self.black.saturating_add(amount);
            },
            ManaColor::Red => {
                self.red = self.red.saturating_add(amount);
            },
            ManaColor::Green => {
                self.green = self.green.saturating_add(amount);
            },
        }
    }
}

#[derive(Clone, Copy, Debug, PartialEq, Eq, Structural)]
pub enum TributeOutcome {
    Paid,
    Declined,
}

#[derive(Debug, PartialEq, Eq)]
pub enum ChosenAttribute {
    TributeOutcome(TributeOutcome),
    Color(ManaColor),
    CreatureType(Text),
}

#[derive(Clone, Copy, Debug, PartialEq, Eq, Structural)]
pub enum AttachTarget {
    Object(ObjectId),
    Player(PlayerId),
}

#[derive(Debug, PartialEq, Eq)]
pub struct CaseState {
    pub is_solved: bool,
    pub solve_condition: SolveCondition,
}

#[derive(Debug, PartialEq, Eq)]
pub struct GameObject {
    pub id: ObjectId,
    pub card_id: CardId,
    pub name: Text,
    pub owner: PlayerId,
    pub controller: PlayerId,
    pub zone: Zone,
    pub tapped: bool,
    pub face_down: bool,
    pub transformed: bool,
    pub phased_out: bool,
    pub is_token: bool,
    pub is_commander: bool,
    pub is_emblem: bool,
    pub is_renowned: bool,
    pub echo_due: bool,
    pub entered_battlefield_turn: Option<u32>,
    pub mana_value: u32,
    pub colors: List<ManaColor>,
    pub power: Option<i32>,
    pub toughness: Option<i32>,
    pub loyalty: Option<u32>,
    pub card_types: CardType,
    pub keywords: List<Keyword>,
    pub trigger_definitions: List<TriggerDefinition>,
    pub static_definitions: List<StaticDefinition>,
    pub replacement_definitions: List<ReplacementDefinition>,
    /// Whether the characteristics before continuous effects have been recorded.
    pub base_recorded: bool,
    pub base_power: Option<i32>,
    pub base_toughness: Option<i32>,
    pub base_card_types: CardType,
    pub base_keywords: List<Keyword>,
    pub base_trigger_definitions: List<TriggerDefinition>,
    pub damage_marked: u32,
    pub dealt_deathtouch_damage: bool,
    pub counters: Counters,
    pub attached_to: Option<AttachTarget>,
    pub attachments: List<ObjectId>,
    pub paired_with: Option<ObjectId>,
    pub chosen_attributes: List<ChosenAttribute>,
    pub class_level: Option<u8>,
    pub case_state: Option<CaseState>,
    pub kickers_paid: List<KickerVariant>,
    pub has_additional_cost: bool,
    pub cast_from_zone: Option<Zone>,
    pub mana_spent_to_cast: bool,
    pub mana_spent_to_cast_amount: u32,
    pub colors_spent_to_cast: ColoredManaCount,
    pub cast_variant_paid: Option<(CastVariant, u32)>,
    pub cast_timing_permission: Option<(CastTimingPermission, u32)>,
    pub cost_x_paid: Option<u32>,
    pub assigns_damage_from_toughness: bool,
    pub assigns_no_combat_damage: bool,
    pub assigns_damage_as_though_unblocked: bool,
}

/// An object as it is before anything has happened to it.
pub open spec fn fresh_object(
    id: ObjectId,
    card_id: CardId,
    owner: PlayerId,
    name: Text,
    zone: Zone,
) -> GameObject {
    GameObject {
        id,
        card_id,
        name,
        owner,
        controller: owner,
        zone,
        tapped: false,
        face_down: false,
        transformed: false,
        phased_out: false,
        is_token: false,
        is_commander: false,
        is_emblem: false,
        is_renowned: false,
        echo_due: false,
        entered_battlefield_turn: None,
        mana_value: 0,
        colors: list_of(seq![]),
        power: None,
        toughness: None,
        loyalty: None,
        card_types: no_types(),
        keywords: list_of(seq![]),
        trigger_definitions: list_of(seq![]),
        static_definitions: list_of(seq![]),
        replacement_definitions: list_of(seq![]),
        base_recorded: false,
        base_power: None,
        base_toughness: None,
        base_card_types: no_types(),
        base_keywords: list_of(seq![]),
        base_trigger_definitions: list_of(seq![]),
        damage_marked: 0,
        dealt_deathtouch_damage: false,
        counters: Counters { entries: list_of(seq![]) },
        attached_to: None,
        attachments: list_of(seq![]),
        paired_with: None,
        chosen_attributes: list_of(seq![]),
        class_level: None,
        case_state: None,
        kickers_paid: list_of(seq![]),
        has_additional_cost: false,
        cast_from_zone: None,
        mana_spent_to_cast: false,
        mana_spent_to_cast_amount: 0,
        colors_spent_to_cast: ColoredManaCount::none(),
        cast_variant_paid: None,
        cast_timing_permission: None,
        cost_x_paid: None,
        assigns_damage_from_toughness: false,
        assigns_no_combat_damage: false,
        assigns_damage_as_though_unblocked: false,
    }
}

pub open spec fn no_types() -> CardType {
    CardType {
        supertypes: list_of(seq![]),
        core_types: list_of(seq![]),
        subtypes: list_of(seq![]),
    }
}

impl GameObject {
    pub fn new(id: ObjectId, card_id: CardId, owner: PlayerId, name: Text, zone: Zone) -> (r: Self)
        ensures
            r == fresh_object(id, card_id, owner, name, zone),
    {
        GameObject {
            id,
            card_id,
            name,
            owner,
            controller: owner,
            zone,
            tapped: false,
            face_down: false,
            transformed: false,
            phased_out: false,
            is_token: false,
            is_commander: false,
            is_emblem: false,
            is_renowned: false,
            echo_due: false,
            entered_battlefield_turn: None,
            mana_value: 0,
            colors: List::new(),
            power: None,
            toughness: None,
            loyalty: None,
            card_types: CardType {
                supertypes: List::new(),
                core_types: List::new(),
                subtypes: List::new(),
            },
            keywords: List::new(),
            trigger_definitions: List::new(),
            static_definitions: List::new(),
            replacement_definitions: List::new(),
            base_recorded: false,
            base_power: None,
            base_toughness: None,
            base_card_types: CardType {
                supertypes: List::new(),
                core_types: List::new(),
                subtypes: List::new(),
            },
            base_keywords: List::new(),
            base_trigger_definitions: List::new(),
            damage_marked: 0,
            dealt_deathtouch_damage: false,
            counters: Counters::new(),
            attached_to: None,
            attachments: List::new(),
            paired_with: None,
            chosen_attributes: List::new(),
            class_level: None,
            case_state: None,
            kickers_paid: List::new(),
            has_additional_cost: false,
            cast_from_zone: None,
            mana_spent_to_cast: false,
            mana_spent_to_cast_amount: 0,
            colors_spent_to_cast: ColoredManaCount::zero(),
            cast_variant_paid: None,
            cast_timing_permission: None,
            cost_x_paid: None,
            assigns_damage_from_toughness: false,
            assigns_no_combat_damage: false,
            assigns_damage_as_though_unblocked: false,
        }
    }

    pub open spec fn has(self, kind: KeywordKind) -> bool {
        has_kind(self.keywords, kind)
    }

    pub fn has_keyword(&self, kind: KeywordKind) -> (r: bool)
        ensures
            r == self.has(kind),
    {
        keywords_have(&self.keywords, kind)
    }

    pub open spec fn is_type(self, core: CoreType) -> bool {
        self.card_types.core_types@.contains(core)
    }

    pub fn has_core_type(&self, core: CoreType) -> (r: bool)
        ensures
            r == self.is_type(core),
    {
        self.card_types.core_types.contains(&core)
    }
}

/// What was last known of an object that left the battlefield (CR 603.10).
#[derive(Debug, PartialEq, Eq)]
pub struct LkiSnapshot {
    pub name: Text,
    pub power: Option<i32>,
    pub toughness: Option<i32>,
    pub mana_value: u32,
    pub controller: PlayerId,
    pub owner: PlayerId,
    pub card_types: CardType,
    pub keywords: List<Keyword>,
    pub counters: Counters,
}

/// A spell that was cast this turn, as it was when it was cast.
#[derive(Debug, PartialEq, Eq)]
pub struct SpellCastRecord {
    pub core_types: List<CoreType>,
    pub supertypes: List<Supertype>,
    pub subtypes: List<Text>,
    pub keywords: List<Keyword>,
    pub colors: List<ManaColor>,
    pub mana_value: u32,
    pub has_x_in_cost: bool,
    pub from_zone: Zone,
}

#[derive(Clone, Copy, Debug, PartialEq, Eq, Structural)]
pub struct ManaUnit {
    pub mana_type: ManaType,
    pub source_id: ObjectId,
    pub expiry: Option<ManaExpiry>,
}

/// The four elements that an Avatar card may ask for in one turn.
#[derive(Clone, Copy, Debug, PartialEq, Eq, Structural)]
pub struct BendingTypes {
    pub air: bool,
    pub earth: bool,
    pub fire: bool,
    pub water: bool,
}

#[derive(Debug, PartialEq, Eq)]
pub struct Player {
    pub id: PlayerId,
    pub life: i32,
    pub poison_counters: u32,
    pub rad_counters: u32,
    pub is_eliminated: bool,
    pub hand: List<ObjectId>,
    pub library: List<ObjectId>,
    pub graveyard: List<ObjectId>,
    pub mana_pool: List<ManaUnit>,
    pub life_gained_this_turn: u32,
    pub life_lost_this_turn: u32,
    pub life_lost_last_turn: u32,
    pub descended_this_turn: bool,
    pub cards_drawn_this_turn: u32,
    pub cards_discarded_this_turn: u32,
    pub bending_types_this_turn: BendingTypes,
    pub speed: Option<u8>,
    pub speed_trigger_used: bool,
}

/// A player as the game begins.
pub open spec fn fresh_player(id: PlayerId, life: i32) -> Player {
    Player {
        id,
        life,
        poison_counters: 0,
        rad_counters: 0,
        is_eliminated: false,
        hand: list_of(seq![]),
        library: list_of(seq![]),
        graveyard: list_of(seq![]),
        mana_pool: list_of(seq![]),
        life_gained_this_turn: 0,
        life_lost_this_turn: 0,
        life_lost_last_turn: 0,
        descended_this_turn: false,
        cards_drawn_this_turn: 0,
        cards_discarded_this_turn: 0,
        bending_types_this_turn: BendingTypes {
            air: false,
            earth: false,
            fire: false,
            water: false,
        },
        speed: None,
        speed_trigger_used: false,
    }
}

impl Player {
    pub fn new(id: PlayerId, life: i32) -> (r: Self)
        ensures
            r == fresh_player(id, life),
    {
        Player {
            id,
            life,
            poison_counters: 0,
            rad_counters: 0,
            is_eliminated: false,
            hand: List::new(),
            library: List::new(),
            graveyard: List::new(),
            mana_pool: List::new(),
            life_gained_this_turn: 0,
            life_lost_this_turn: 0,
            life_lost_last_turn: 0,
            descended_this_turn: false,
            cards_drawn_this_turn: 0,
            cards_discarded_this_turn: 0,
            bending_types_this_turn: BendingTypes {
                air: false,
                earth: false,
                fire: false,
                water: false,
            },
            speed: None,
            speed_trigger_used: false,
        }
    }
}

} // verus!
