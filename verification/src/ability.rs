//! What is printed on a card: costs, filters, quantities, conditions, effects, and the
//! definitions of triggered, static and replacement abilities.

use crate::ids::{
    CastTimingPermission, CastVariant, Comparator, ControllerRef, CoreType, CounterType,
    DungeonId, KeywordKind, KickerVariant, ManaColor, ManaExpiry, ObjectId, Phase, PlayerId,
    Supertype, TargetRef, TrackedSetId, Zone,
};
use crate::list::{copy_rc, list_of, List};
use crate::text::{copy_text, Text};
use std::rc::Rc;
use vstd::prelude::*;

verus! {

#[derive(Clone, Copy, Debug, PartialEq, Eq, Structural)]
pub struct ManaCost {
    pub white: u32,
    pub blue: u32,
    pub black: u32,
    pub red: u32,
    pub green: u32,
    pub colorless: u32,
    pub generic: u32,
    pub x: u32,
}

impl ManaCost {
    pub open spec fn generic_spec(amount: u32) -> ManaCost {
        ManaCost {
            white: 0,
            blue: 0,
            black: 0,
            red: 0,
            green: 0,
            colorless: 0,
            generic: amount,
            x: 0,
        }
    }

    pub fn generic(amount: u32) -> (r: ManaCost)
        ensures
            r == ManaCost::generic_spec(amount),
    {
        ManaCost {
            white: 0,
            blue: 0,
            black: 0,
            red: 0,
            green: 0,
            colorless: 0,
            generic: amount,
            x: 0,
        }
    }

    pub fn zero() -> (r: ManaCost)
        ensures
            r == ManaCost::generic_spec(0),
    {
        ManaCost::generic(0)
    }
}

#[derive(Debug, PartialEq, Eq)]
pub enum WardCost {
    Mana(ManaCost),
    PayLife(i32),
    DiscardCard,
    Sacrifice { count: u32, filter: Rc<TargetFilter> },
    Waterbend(ManaCost),
    Compound(List<WardCost>),
}

#[allow(inconsistent_fields)]
#[derive(Debug, PartialEq, Eq)]
pub enum AbilityCost {
    Mana { cost: ManaCost },
    PayLife { amount: QuantityExpr },
    Discard { count: QuantityExpr, filter: Option<Rc<TargetFilter>>, random: bool, self_ref: bool },
    Sacrifice { target: Rc<TargetFilter>, count: u32 },
    Composite { costs: List<AbilityCost> },
}

/// What a permanent has protection from.
#[derive(Clone, Copy, Debug, PartialEq, Eq, Structural)]
pub enum ProtectionTarget {
    Color(ManaColor),
    CardType(CoreType),
    Everything,
}

#[derive(Debug, PartialEq, Eq)]
pub enum Keyword {
    Cascade,
    Casualty(u32),
    Deathtouch,
    Decayed,
    DoubleStrike,
    Exploit,
    Firebending(u32),
    FirstStrike,
    Flying,
    Haste,
    Indestructible,
    Infect,
    Lifelink,
    Menace,
    Protection(ProtectionTarget),
    Prowess,
    Ravenous,
    Reach,
    Shroud,
    Soulbond,
    Storm,
    Toxic(u32),
    Trample,
    TrampleOverPlaneswalkers,
    Vigilance,
    Ward(WardCost),
    Wither,
}

impl Keyword {
    pub open spec fn kind_spec(&self) -> KeywordKind {
        match *self {
            Keyword::Cascade => KeywordKind::Cascade,
            Keyword::Casualty(_) => KeywordKind::Casualty,
            Keyword::Deathtouch => KeywordKind::Deathtouch,
            Keyword::Decayed => KeywordKind::Decayed,
            Keyword::DoubleStrike => KeywordKind::DoubleStrike,
            Keyword::Exploit => KeywordKind::Exploit,
            Keyword::Firebending(_) => KeywordKind::Firebending,
            Keyword::FirstStrike => KeywordKind::FirstStrike,
            Keyword::Flying => KeywordKind::Flying,
            Keyword::Haste => KeywordKind::Haste,
            Keyword::Indestructible => KeywordKind::Indestructible,
            Keyword::Infect => KeywordKind::Infect,
            Keyword::Lifelink => KeywordKind::Lifelink,
            Keyword::Menace => KeywordKind::Menace,
            Keyword::Protection(_) => KeywordKind::Protection,
            Keyword::Prowess => KeywordKind::Prowess,
            Keyword::Ravenous => KeywordKind::Ravenous,
            Keyword::Reach => KeywordKind::Reach,
            Keyword::Shroud => KeywordKind::Shroud,
            Keyword::Soulbond => KeywordKind::Soulbond,
            Keyword::Storm => KeywordKind::Storm,
            Keyword::Toxic(_) => KeywordKind::Toxic,
            Keyword::Trample => KeywordKind::Trample,
            Keyword::TrampleOverPlaneswalkers => KeywordKind::TrampleOverPlaneswalkers,
            Keyword::Vigilance => KeywordKind::Vigilance,
            Keyword::Ward(_) => KeywordKind::Ward,
            Keyword::Wither => KeywordKind::Wither,
        }
    }

    pub fn kind(&self) -> (r: KeywordKind)
        ensures
            r == self.kind_spec(),
    {
        match self {
            Keyword::Cascade => KeywordKind::Cascade,
            Keyword::Casualty(_) => KeywordKind::Casualty,
            Keyword::Deathtouch => KeywordKind::Deathtouch,
            Keyword::Decayed => KeywordKind::Decayed,
            Keyword::DoubleStrike => KeywordKind::DoubleStrike,
            Keyword::Exploit => KeywordKind::Exploit,
            Keyword::Firebending(_) => KeywordKind::Firebending,
            Keyword::FirstStrike => KeywordKind::FirstStrike,
            Keyword::Flying => KeywordKind::Flying,
            Keyword::Haste => KeywordKind::Haste,
            Keyword::Indestructible => KeywordKind::Indestructible,
            Keyword::Infect => KeywordKind::Infect,
            Keyword::Lifelink => KeywordKind::Lifelink,
            Keyword::Menace => KeywordKind::Menace,
            Keyword::Protection(_) => KeywordKind::Protection,
            Keyword::Prowess => KeywordKind::Prowess,
            Keyword::Ravenous => KeywordKind::Ravenous,
            Keyword::Reach => KeywordKind::Reach,
            Keyword::Shroud => KeywordKind::Shroud,
            Keyword::Soulbond => KeywordKind::Soulbond,
            Keyword::Storm => KeywordKind::Storm,
            Keyword::Toxic(_) => KeywordKind::Toxic,
            Keyword::Trample => KeywordKind::Trample,
            Keyword::TrampleOverPlaneswalkers => KeywordKind::TrampleOverPlaneswalkers,
            Keyword::Vigilance => KeywordKind::Vigilance,
            Keyword::Ward(_) => KeywordKind::Ward,
            Keyword::Wither => KeywordKind::Wither,
        }
    }
}

impl Keyword {
    /// The keyword that goes by a name alone, where there is one.
    pub open spec fn named(name: Seq<char>) -> Option<Keyword> {
        if name == "cascade"@ {
            Some(Keyword::Cascade)
        } else if name == "deathtouch"@ {
            Some(Keyword::Deathtouch)
        } else if name == "decayed"@ {
            Some(Keyword::Decayed)
        } else if name == "double strike"@ {
            Some(Keyword::DoubleStrike)
        } else if name == "exploit"@ {
            Some(Keyword::Exploit)
        } else if name == "first strike"@ {
            Some(Keyword::FirstStrike)
        } else if name == "flying"@ {
            Some(Keyword::Flying)
        } else if name == "haste"@ {
            Some(Keyword::Haste)
        } else if name == "indestructible"@ {
            Some(Keyword::Indestructible)
        } else if name == "infect"@ {
            Some(Keyword::Infect)
        } else if name == "lifelink"@ {
            Some(Keyword::Lifelink)
        } else if name == "menace"@ {
            Some(Keyword::Menace)
        } else if name == "prowess"@ {
            Some(Keyword::Prowess)
        } else if name == "ravenous"@ {
            Some(Keyword::Ravenous)
        } else if name == "reach"@ {
            Some(Keyword::Reach)
        } else if name == "shroud"@ {
            Some(Keyword::Shroud)
        } else if name == "soulbond"@ {
            Some(Keyword::Soulbond)
        } else if name == "storm"@ {
            Some(Keyword::Storm)
        } else if name == "trample"@ {
            Some(Keyword::Trample)
        } else if name == "trample over planeswalkers"@ {
            Some(Keyword::TrampleOverPlaneswalkers)
        } else if name == "vigilance"@ {
            Some(Keyword::Vigilance)
        } else if name == "wither"@ {
            Some(Keyword::Wither)
        } else {
            None
        }
    }

    pub fn from_name(name: &str) -> (r: Option<Keyword>)
        ensures
            r == Keyword::named(name@),
    {
        let given = Text::new(String::from_str(name));
        if given.reads(&Text::Literal("cascade")) {
            Some(Keyword::Cascade)
        } else if given.reads(&Text::Literal("deathtouch")) {
            Some(Keyword::Deathtouch)
        } else if given.reads(&Text::Literal("decayed")) {
            Some(Keyword::Decayed)
        } else if given.reads(&Text::Literal("double strike")) {
            Some(Keyword::DoubleStrike)
        } else if given.reads(&Text::Literal("exploit")) {
            Some(Keyword::Exploit)
        } else if given.reads(&Text::Literal("first strike")) {
            Some(Keyword::FirstStrike)
        } else if given.reads(&Text::Literal("flying")) {
            Some(Keyword::Flying)
        } else if given.reads(&Text::Literal("haste")) {
            Some(Keyword::Haste)
        } else if given.reads(&Text::Literal("indestructible")) {
            Some(Keyword::Indestructible)
        } else if given.reads(&Text::Literal("infect")) {
            Some(Keyword::Infect)
        } else if given.reads(&Text::Literal("lifelink")) {
            Some(Keyword::Lifelink)
        } else if given.reads(&Text::Literal("menace")) {
            Some(Keyword::Menace)
        } else if given.reads(&Text::Literal("prowess")) {
            Some(Keyword::Prowess)
        } else if given.reads(&Text::Literal("ravenous")) {
            Some(Keyword::Ravenous)
        } else if given.reads(&Text::Literal("reach")) {
            Some(Keyword::Reach)
        } else if given.reads(&Text::Literal("shroud")) {
            Some(Keyword::Shroud)
        } else if given.reads(&Text::Literal("soulbond")) {
            Some(Keyword::Soulbond)
        } else if given.reads(&Text::Literal("storm")) {
            Some(Keyword::Storm)
        } else if given.reads(&Text::Literal("trample")) {
            Some(Keyword::Trample)
        } else if given.reads(&Text::Literal("trample over planeswalkers")) {
            Some(Keyword::TrampleOverPlaneswalkers)
        } else if given.reads(&Text::Literal("vigilance")) {
            Some(Keyword::Vigilance)
        } else if given.reads(&Text::Literal("wither")) {
            Some(Keyword::Wither)
        } else {
            None
        }
    }
}

/// Whether a list of keywords holds one of the given kind.
pub open spec fn has_kind(keywords: List<Keyword>, kind: KeywordKind) -> bool
    decreases keywords,
{
    match keywords.node {
        None => false,
        Some(n) => n.item.kind_spec() == kind || has_kind(n.rest, kind),
    }
}

pub fn keywords_have(keywords: &List<Keyword>, kind: KeywordKind) -> (r: bool)
    ensures
        r == has_kind(*keywords, kind),
    decreases keywords,
{
    match &keywords.node {
        None => false,
        Some(n) => n.item.kind() == kind || keywords_have(&n.rest, kind),
    }
}

/// A list has a kind of keyword exactly when the keyword is in it, with whatever number or cost
/// it comes.
pub proof fn law_keywords(keywords: List<Keyword>)
    ensures
        has_kind(keywords, KeywordKind::Cascade) <==> keywords@.contains(Keyword::Cascade),
        has_kind(keywords, KeywordKind::Deathtouch) <==> keywords@.contains(Keyword::Deathtouch),
        has_kind(keywords, KeywordKind::Decayed) <==> keywords@.contains(Keyword::Decayed),
        has_kind(keywords, KeywordKind::DoubleStrike) <==> keywords@.contains(Keyword::DoubleStrike),
        has_kind(keywords, KeywordKind::Exploit) <==> keywords@.contains(Keyword::Exploit),
        has_kind(keywords, KeywordKind::FirstStrike) <==> keywords@.contains(Keyword::FirstStrike),
        has_kind(keywords, KeywordKind::Flying) <==> keywords@.contains(Keyword::Flying),
        has_kind(keywords, KeywordKind::Haste) <==> keywords@.contains(Keyword::Haste),
        has_kind(keywords, KeywordKind::Indestructible) <==> keywords@.contains(Keyword::Indestructible),
        has_kind(keywords, KeywordKind::Infect) <==> keywords@.contains(Keyword::Infect),
        has_kind(keywords, KeywordKind::Lifelink) <==> keywords@.contains(Keyword::Lifelink),
        has_kind(keywords, KeywordKind::Menace) <==> keywords@.contains(Keyword::Menace),
        has_kind(keywords, KeywordKind::Prowess) <==> keywords@.contains(Keyword::Prowess),
        has_kind(keywords, KeywordKind::Ravenous) <==> keywords@.contains(Keyword::Ravenous),
        has_kind(keywords, KeywordKind::Reach) <==> keywords@.contains(Keyword::Reach),
        has_kind(keywords, KeywordKind::Shroud) <==> keywords@.contains(Keyword::Shroud),
        has_kind(keywords, KeywordKind::Soulbond) <==> keywords@.contains(Keyword::Soulbond),
        has_kind(keywords, KeywordKind::Storm) <==> keywords@.contains(Keyword::Storm),
        has_kind(keywords, KeywordKind::Trample) <==> keywords@.contains(Keyword::Trample),
        has_kind(keywords, KeywordKind::TrampleOverPlaneswalkers) <==> keywords@.contains(Keyword::TrampleOverPlaneswalkers),
        has_kind(keywords, KeywordKind::Vigilance) <==> keywords@.contains(Keyword::Vigilance),
        has_kind(keywords, KeywordKind::Wither) <==> keywords@.contains(Keyword::Wither),
        has_kind(keywords, KeywordKind::Casualty) <==> exists|i: int|
            0 <= i < keywords@.len() && #[trigger] keywords@[i] is Casualty,
        has_kind(keywords, KeywordKind::Firebending) <==> exists|i: int|
            0 <= i < keywords@.len() && #[trigger] keywords@[i] is Firebending,
        has_kind(keywords, KeywordKind::Protection) <==> exists|i: int|
            0 <= i < keywords@.len() && #[trigger] keywords@[i] is Protection,
        has_kind(keywords, KeywordKind::Toxic) <==> exists|i: int|
            0 <= i < keywords@.len() && #[trigger] keywords@[i] is Toxic,
        has_kind(keywords, KeywordKind::Ward) <==> exists|i: int|
            0 <= i < keywords@.len() && #[trigger] keywords@[i] is Ward,
{
    lemma_has_kind(keywords);
    lemma_has_plain(keywords, Keyword::Cascade, KeywordKind::Cascade);
    lemma_has_plain(keywords, Keyword::Deathtouch, KeywordKind::Deathtouch);
    lemma_has_plain(keywords, Keyword::Decayed, KeywordKind::Decayed);
    lemma_has_plain(keywords, Keyword::DoubleStrike, KeywordKind::DoubleStrike);
    lemma_has_plain(keywords, Keyword::Exploit, KeywordKind::Exploit);
    lemma_has_plain(keywords, Keyword::FirstStrike, KeywordKind::FirstStrike);
    lemma_has_plain(keywords, Keyword::Flying, KeywordKind::Flying);
    lemma_has_plain(keywords, Keyword::Haste, KeywordKind::Haste);
    lemma_has_plain(keywords, Keyword::Indestructible, KeywordKind::Indestructible);
    lemma_has_plain(keywords, Keyword::Infect, KeywordKind::Infect);
    lemma_has_plain(keywords, Keyword::Lifelink, KeywordKind::Lifelink);
    lemma_has_plain(keywords, Keyword::Menace, KeywordKind::Menace);
    lemma_has_plain(keywords, Keyword::Prowess, KeywordKind::Prowess);
    lemma_has_plain(keywords, Keyword::Ravenous, KeywordKind::Ravenous);
    lemma_has_plain(keywords, Keyword::Reach, KeywordKind::Reach);
    lemma_has_plain(keywords, Keyword::Shroud, KeywordKind::Shroud);
    lemma_has_plain(keywords, Keyword::Soulbond, KeywordKind::Soulbond);
    lemma_has_plain(keywords, Keyword::Storm, KeywordKind::Storm);
    lemma_has_plain(keywords, Keyword::Trample, KeywordKind::Trample);
    lemma_has_plain(keywords, Keyword::TrampleOverPlaneswalkers, KeywordKind::TrampleOverPlaneswalkers);
    lemma_has_plain(keywords, Keyword::Vigilance, KeywordKind::Vigilance);
    lemma_has_plain(keywords, Keyword::Wither, KeywordKind::Wither);
}

proof fn lemma_has_plain(keywords: List<Keyword>, keyword: Keyword, kind: KeywordKind)
    requires
        forall|k: Keyword| #[trigger] k.kind_spec() == kind <==> k == keyword,
    ensures
        has_kind(keywords, kind) <==> keywords@.contains(keyword),
{
    lemma_has_kind(keywords);
    let items = keywords@;
    if has_kind(keywords, kind) {
        let i = choose|i: int| 0 <= i < items.len() && (#[trigger] items[i]).kind_spec() == kind;
        assert(items[i] == keyword);
    }
    if items.contains(keyword) {
        let i = choose|i: int| 0 <= i < items.len() && items[i] == keyword;
        assert(items[i].kind_spec() == kind);
    }
}

proof fn lemma_has_kind(keywords: List<Keyword>)
    ensures
        forall|kind: KeywordKind| #[trigger]
            has_kind(keywords, kind) <==> exists|i: int|
                0 <= i < keywords@.len() && (#[trigger] keywords@[i]).kind_spec() == kind,
    decreases keywords,
{
    if keywords.node is Some {
        let rest = crate::list::list_rest(keywords);
        lemma_has_kind(rest);
        let items = keywords@;
        let tail = rest@;
        assert(items[0] == *keywords.node->0.item);
        assert(items.len() == tail.len() + 1);
        assert forall|kind: KeywordKind| #[trigger]
            has_kind(keywords, kind) <==> exists|i: int|
                0 <= i < items.len() && (#[trigger] items[i]).kind_spec() == kind by {
            if has_kind(rest, kind) {
                let i = choose|i: int|
                    0 <= i < tail.len() && (#[trigger] tail[i]).kind_spec() == kind;
                assert(items[i + 1] == tail[i]);
            }
            if exists|i: int| 0 < i < items.len() && (#[trigger] items[i]).kind_spec() == kind {
                let i = choose|i: int|
                    0 < i < items.len() && (#[trigger] items[i]).kind_spec() == kind;
                assert(items[i] == tail[i - 1]);
            }
        }
    }
}

/// How many keywords of the given kind a list holds.
pub open spec fn count_kind(keywords: List<Keyword>, kind: KeywordKind) -> nat
    decreases keywords,
{
    match keywords.node {
        None => 0,
        Some(n) => (if n.item.kind_spec() == kind {
            1nat
        } else {
            0nat
        }) + count_kind(n.rest, kind),
    }
}

#[derive(Clone, Copy, Debug, PartialEq, Eq, Structural)]
pub enum AttachmentKind {
    Aura,
    Equipment,
}

#[derive(Clone, Copy, Debug, PartialEq, Eq, Structural)]
pub enum SharedQuality {
    CardType,
    Name,
}

#[derive(Clone, Copy, Debug, PartialEq, Eq, Structural)]
pub enum SharedQualityRelation {
    Shares,
    DoesNotShare,
}

#[derive(Debug, PartialEq, Eq)]
pub enum TypeFilter {
    Artifact,
    Battle,
    Creature,
    Enchantment,
    Instant,
    Land,
    Planeswalker,
    Sorcery,
    Card,
    Permanent,
    Subtype(Text),
    Non(Rc<TypeFilter>),
    AnyOf(List<TypeFilter>),
}

#[allow(inconsistent_fields)]
#[derive(Debug, PartialEq, Eq)]
pub enum FilterProp {
    Another,
    OtherThanTriggerObject,
    Owned { controller: ControllerRef },
    InZone { zone: Zone },
    HasAnyCounter,
    WithKeyword { value: KeywordKind },
    Token,
    SharesQuality {
        quality: SharedQuality,
        reference: Option<Rc<TargetFilter>>,
        relation: SharedQualityRelation,
    },
    SameName,
    IsCommander,
    HasXInManaCost,
    HasAttachment { kind: AttachmentKind, controller: Option<ControllerRef> },
    EnteredThisTurn,
}

#[derive(Debug, PartialEq, Eq)]
pub struct TypedFilter {
    pub type_filters: List<TypeFilter>,
    pub controller: Option<ControllerRef>,
    pub properties: List<FilterProp>,
}

#[allow(inconsistent_fields)]
#[derive(Debug, PartialEq, Eq)]
pub enum TargetFilter {
    Nothing,
    Any,
    Player,
    Controller,
    SelfRef,
    Typed(TypedFilter),
    Not { filter: Rc<TargetFilter> },
    Or { filters: List<TargetFilter> },
    And { filters: List<TargetFilter> },
    SpecificObject { id: ObjectId },
    AttachedTo,
    TrackedSet { id: TrackedSetId },
    ExiledBySource,
    SourceOrPaired,
    ScopedPlayer,
    TriggeringSource,
    TriggeringPlayer,
    TriggeringSpellController,
    TriggeringSpellOwner,
}

/// The zone that the first zone property of a list names.
pub open spec fn zone_property(properties: List<FilterProp>) -> Option<Zone>
    decreases properties,
{
    match properties.node {
        None => None,
        Some(n) => match *n.item {
            FilterProp::InZone { zone } => Some(zone),
            _ => zone_property(n.rest),
        },
    }
}

fn find_zone_property(properties: &List<FilterProp>) -> (r: Option<Zone>)
    ensures
        r == zone_property(*properties),
    decreases properties,
{
    match &properties.node {
        None => None,
        Some(n) => match &*n.item {
            FilterProp::InZone { zone } => Some(*zone),
            _ => find_zone_property(&n.rest),
        },
    }
}

impl TargetFilter {
    /// The zone that the filter restricts its objects to, where it names one.
    pub open spec fn in_zone(self) -> Option<Zone> {
        match self {
            TargetFilter::Typed(typed) => zone_property(typed.properties),
            _ => None,
        }
    }

    pub fn extract_in_zone(&self) -> (r: Option<Zone>)
        ensures
            r == self.in_zone(),
    {
        match self {
            TargetFilter::Typed(typed) => find_zone_property(&typed.properties),
            _ => None,
        }
    }

    /// Whether the filter names something that the context of the ability settles, so that
    /// no player has to choose it.
    pub open spec fn from_context(self) -> bool {
        match self {
            TargetFilter::Any | TargetFilter::Player | TargetFilter::Typed(_) => false,
            TargetFilter::Not { .. } | TargetFilter::Or { .. } | TargetFilter::And { .. } => false,
            _ => true,
        }
    }

    pub fn is_context_ref(&self) -> (r: bool)
        ensures
            r == self.from_context(),
    {
        match self {
            TargetFilter::Any | TargetFilter::Player | TargetFilter::Typed(_) => false,
            TargetFilter::Not { .. } | TargetFilter::Or { .. } | TargetFilter::And { .. } => false,
            _ => true,
        }
    }
}

#[derive(Clone, Copy, Debug, PartialEq, Eq, Structural)]
pub enum AggregateFunction {
    Sum,
    Max,
    Min,
}

#[derive(Clone, Copy, Debug, PartialEq, Eq, Structural)]
pub enum PlayerScope {
    Controller,
    Opponent { aggregate: AggregateFunction },
    DefendingPlayer,
}

#[derive(Clone, Copy, Debug, PartialEq, Eq, Structural)]
pub enum CountScope {
    Controller,
    All,
}

#[derive(Clone, Copy, Debug, PartialEq, Eq, Structural)]
pub enum CastManaObjectScope {
    SelfObject,
    TriggeringSpell,
}

#[allow(inconsistent_fields)]
#[derive(Debug, PartialEq, Eq)]
pub enum QuantityRef {
    LifeTotal { player: PlayerScope },
    LifeAboveStarting,
    CardsDiscardedThisTurn { player: PlayerScope },
    ManaSpentToCast { scope: CastManaObjectScope },
    SourcePower,
    SourceToughness,
    SpellsCastThisTurn { scope: CountScope, filter: Option<TargetFilter> },
    ObjectCount { filter: TargetFilter },
    EventContextAmount,
    EventContextSourcePower,
}

#[derive(Debug, PartialEq, Eq)]
pub enum QuantityExpr {
    Fixed { value: i32 },
    Ref { qty: QuantityRef },
}

#[derive(Clone, Copy, Debug, PartialEq, Eq, Structural)]
pub enum PlayerFilter {
    Controller,
    Opponent,
    TriggeringPlayer,
    DefendingPlayer,
    OpponentLostLife,
    OpponentGainedLife,
    All,
    HighestSpeed,
    ZoneChangedThisWay,
    PerformedActionThisWay,
    VotedFor,
    OwnersOfCardsExiledBySource,
    OpponentOtherThanTriggering,
}

#[derive(Clone, Copy, Debug, PartialEq, Eq, Structural)]
pub enum CounterMatch {
    Any,
    OfType(CounterType),
}

/// The intervening-if clause of a triggered ability (CR 603.4).
#[allow(inconsistent_fields)]
#[derive(Debug, PartialEq, Eq)]
pub enum TriggerCondition {
    GainedLife { minimum: u32 },
    LostLife,
    Descended,
    SourceEnteredThisTurn,
    EchoDue,
    ControlCreatures { minimum: u32 },
    MinCoAttackers { minimum: u32 },
    AttackersDeclaredMin { scope: ControllerRef, minimum: u32 },
    NoneOfAttackersTargetedYou,
    SolveConditionMet,
    ClassLevelGE { level: u8 },
    WasCast,
    AdditionalCostPaid {
        variant: Option<KickerVariant>,
        kicker_cost: Option<ManaCost>,
        min_count: u32,
    },
    SourceIsAttacking,
    CastVariantPaid { variant: CastVariant },
    DealtDamageBySourceThisTurn,
    WasType { card_type: CoreType },
    ZoneChangeObjectMatchesFilter {
        origin: Option<Zone>,
        destination: Zone,
        filter: TargetFilter,
    },
    SourceMatchesFilter { filter: TargetFilter },
    ControlsType { filter: TargetFilter },
    ControlsNone { filter: TargetFilter },
    NoSpellsCastLastTurn,
    TwoOrMoreSpellsCastLastTurn,
    LifeTotalGE { minimum: i32 },
    DuringPlayersTurn { player: PlayerFilter },
    ControlCount { minimum: u32, filter: TargetFilter },
    AttackedThisTurn,
    FirstCombatPhaseOfTurn,
    CastSpellThisTurn { filter: Option<TargetFilter> },
    QuantityComparison { lhs: QuantityExpr, comparator: Comparator, rhs: QuantityExpr },
    HasMaxSpeed,
    CounterAddedThisTurn,
    LostLifeLastTurn,
    DefendingPlayerControlsNone { filter: TargetFilter },
    IsMonarch,
    HasCityBlessing,
    SourceIsTapped,
    SourceIsTransformed,
    SourceIsFaceUp,
    SourceIsFaceDown,
    SourceInZone { zone: Zone },
    TributeNotPaid,
    CastDuringPhase { phases: List<Phase> },
    CastTimingPermission { permission: CastTimingPermission },
    ManaColorSpent { color: ManaColor, minimum: u32 },
    ManaSpentCondition { text: Text },
    HadCounters { counter_type: Option<CounterType> },
    ExceptFirstDrawInDrawStep,
    And { conditions: List<TriggerCondition> },
    Or { conditions: List<TriggerCondition> },
    Not { condition: Rc<TriggerCondition> },
    CompletedDungeon { specific: Option<DungeonId> },
    ControlsCommander,
    SourceIsRenowned,
    HasCounters { counters: CounterMatch, minimum: u32, maximum: Option<u32> },
}

#[derive(Debug, PartialEq, Eq)]
pub enum TriggerConstraint {
    OncePerTurn,
    OncePerGame,
    OnlyDuringYourTurn,
    OnlyDuringOpponentsTurn,
    OnlyDuringYourMainPhase,
    NthSpellThisTurn { n: u32, filter: Option<TargetFilter> },
    NthDrawThisTurn { n: u32 },
    AtClassLevel { level: u8 },
    MaxTimesPerTurn { max: u32 },
}

#[derive(Debug, PartialEq, Eq)]
pub enum SolveCondition {
    ObjectCount { filter: TargetFilter, comparator: Comparator, threshold: u32 },
    Text { description: Text },
}

#[derive(Clone, Copy, Debug, PartialEq, Eq, Structural)]
pub enum AbilityKind {
    Spell,
    Activated,
    Database,
}

#[derive(Clone, Copy, Debug, PartialEq, Eq, Structural)]
pub enum AbilityCondition {
    IfYouDo,
    AdditionalCostPaid,
}

#[derive(Clone, Copy, Debug, PartialEq, Eq, Structural)]
pub enum Duration {
    UntilEndOfTurn,
    UntilYourNextTurn,
    UntilHostLeavesPlay,
    Permanent,
}

#[derive(Clone, Copy, Debug, PartialEq, Eq, Structural)]
pub enum DistributionUnit {
    Damage,
    Counters,
}

#[derive(Clone, Copy, Debug, PartialEq, Eq, Structural)]
pub struct ModalChoice {
    pub min_choices: u32,
    pub max_choices: u32,
}

/// How many targets an effect takes. No `max` means any number.
#[derive(Clone, Copy, Debug, PartialEq, Eq, Structural)]
pub struct MultiTargetSpec {
    pub min: u32,
    pub max: Option<u32>,
}

impl MultiTargetSpec {
    pub fn fixed(min: u32, max: u32) -> (r: Self)
        ensures
            r == (MultiTargetSpec { min, max: Some(max) }),
    {
        MultiTargetSpec { min, max: Some(max) }
    }
}

#[derive(Clone, Copy, Debug, PartialEq, Eq, Structural)]
pub enum TargetSelectionMode {
    Chosen,
    Random,
}

/// What the targets of an ability must satisfy together.
#[derive(Clone, Copy, Debug, PartialEq, Eq, Structural)]
pub enum TargetSelectionConstraint {
    DifferentTargets,
}

#[derive(Clone, Copy, Debug, PartialEq, Eq, Structural)]
pub enum MayTriggerOrigin {
    Printed { trigger_index: usize },
    Keyword { keyword: KeywordKind },
}

#[derive(Debug, PartialEq, Eq)]
pub struct UnlessPayModifier {
    pub cost: AbilityCost,
    pub payer: TargetFilter,
}

#[derive(Debug, PartialEq, Eq)]
pub enum PtValue {
    Fixed(i32),
    Quantity(QuantityExpr),
}

#[derive(Clone, Copy, Debug, PartialEq, Eq, Structural)]
pub enum ManaContribution {
    Base,
    Additional,
}

#[derive(Debug, PartialEq, Eq)]
pub enum ManaProduction {
    Fixed { colors: List<ManaColor>, contribution: ManaContribution },
    AnyOneColor {
        count: QuantityExpr,
        color_options: List<ManaColor>,
        contribution: ManaContribution,
    },
    ChosenColor { count: QuantityExpr, contribution: ManaContribution },
}

#[derive(Clone, Copy, Debug, PartialEq, Eq, Structural)]
pub enum GainLifePlayer {
    Controller,
    Target,
}

/// When a delayed trigger that an effect sets up goes off.
#[derive(Clone, Copy, Debug, PartialEq, Eq, Structural)]
pub enum DelayedTiming {
    AtNextPhase { phase: Phase },
    AtNextPhaseForPlayer { phase: Phase, player: PlayerId },
}

#[derive(Debug, PartialEq, Eq)]
pub enum DelayedTriggerCondition {
    AtNextPhase { phase: Phase },
    AtNextPhaseForPlayer { phase: Phase, player: PlayerId },
    WhenLeavesPlay { object_id: ObjectId },
    WhenDies { filter: TargetFilter },
    WhenLeavesPlayFiltered { filter: TargetFilter },
    WhenEntersBattlefield { filter: TargetFilter },
    WhenDiesOrExiled { filter: TargetFilter },
    WheneverEvent { trigger: Rc<TriggerDefinition> },
    WhenNextEvent { trigger: Rc<TriggerDefinition> },
}

/// Tokens to be made (CR 111), and how many.
#[derive(Debug, PartialEq, Eq)]
pub struct TokenSpec {
    pub name: Text,
    pub power: PtValue,
    pub toughness: PtValue,
    pub supertypes: List<Supertype>,
    pub core_types: List<CoreType>,
    pub subtypes: List<Text>,
    pub colors: List<ManaColor>,
    pub keywords: List<Keyword>,
    pub tapped: bool,
    pub count: QuantityExpr,
}

#[allow(inconsistent_fields)]
#[derive(Debug, PartialEq, Eq)]
pub enum Effect {
    Unimplemented { name: Text, description: Option<Text> },
    Draw { count: QuantityExpr, target: TargetFilter },
    Discard { count: QuantityExpr, target: TargetFilter },
    GainLife { amount: QuantityExpr, player: GainLifePlayer },
    LoseLife { amount: QuantityExpr, target: Option<TargetFilter> },
    DealDamage { amount: QuantityExpr, target: TargetFilter },
    Destroy { target: TargetFilter, cant_regenerate: bool },
    Bounce { target: TargetFilter, destination: Option<Zone> },
    Counter { target: TargetFilter },
    CopySpell { target: TargetFilter },
    Cascade,
    ChangeZone {
        origin: Option<Zone>,
        destination: Zone,
        target: TargetFilter,
        owner_library: bool,
        enter_transformed: bool,
        under_your_control: bool,
        enter_tapped: bool,
        enters_attacking: bool,
        up_to: bool,
    },
    PutAtLibraryPosition { target: TargetFilter, position: u32 },
    PutCounter { counter_type: CounterType, count: QuantityExpr, target: TargetFilter },
    PutCounterAll { counter_type: CounterType, count: QuantityExpr, target: TargetFilter },
    Pump { power: PtValue, toughness: PtValue, target: TargetFilter },
    Sacrifice { target: TargetFilter, count: QuantityExpr, min_count: u32 },
    Exploit { target: TargetFilter },
    PairWith { target: TargetFilter },
    RevealHand { target: TargetFilter, card_filter: TargetFilter, choice_optional: bool },
    CopyTokenOf { target: TargetFilter, source_filter: Option<TargetFilter>, count: QuantityExpr },
    Token(TokenSpec),
    Mana { produced: ManaProduction, expiry: Option<ManaExpiry>, target: Option<TargetFilter> },
    CreateDelayedTrigger {
        condition: DelayedTiming,
        kind: AbilityKind,
        effect: Rc<Effect>,
        uses_tracked_set: bool,
    },
    IncreaseSpeed { player_scope: PlayerFilter, amount: QuantityExpr },
    ProcessRadCounters,
    BecomeMonarch,
    TakeTheInitiative,
    VentureIntoDungeon,
    VentureInto { dungeon: DungeonId },
    RingTemptsYou,
    Scry { count: QuantityExpr },
    CantAttack { target: TargetFilter },
    Goad { target: TargetFilter },
    /// Exile cards from the top of the library, and they may be played.
    ExileTopToPlay { count: QuantityExpr },
    /// Draw cards and reveal them, and one of them may be cast for nothing.
    DrawAndCastOneFree { count: QuantityExpr },
    /// Search the library for a basic land card, reveal it, put it into the hand, then shuffle.
    SearchBasicLand,
    /// Reveal cards from the top of the library. A creature card among them enters with +1/+1
    /// counters and gains hexproof until the player's next turn. Then shuffle.
    RaiseFromTop { revealed: QuantityExpr, counters: QuantityExpr },
}

impl Effect {
    /// The filter that the effect's targets are drawn from, where it has one.
    pub open spec fn target_filter_spec(&self) -> Option<TargetFilter> {
        match *self {
            Effect::Draw { target, .. } => Some(target),
            Effect::Discard { target, .. } => Some(target),
            Effect::DealDamage { target, .. } => Some(target),
            Effect::Destroy { target, .. } => Some(target),
            Effect::Bounce { target, .. } => Some(target),
            Effect::Counter { target } => Some(target),
            Effect::CopySpell { target } => Some(target),
            Effect::ChangeZone { target, .. } => Some(target),
            Effect::PutAtLibraryPosition { target, .. } => Some(target),
            Effect::PutCounter { target, .. } => Some(target),
            Effect::Pump { target, .. } => Some(target),
            Effect::Sacrifice { target, .. } => Some(target),
            Effect::PairWith { target } => Some(target),
            Effect::RevealHand { target, .. } => Some(target),
            Effect::CopyTokenOf { target, .. } => Some(target),
            Effect::CantAttack { target } => Some(target),
            Effect::Goad { target } => Some(target),
            Effect::LoseLife { target, .. } => target,
            Effect::Mana { target, .. } => target,
            _ => None,
        }
    }

    pub fn target_filter(&self) -> (r: Option<&TargetFilter>)
        ensures
            match r {
                Some(f) => self.target_filter_spec() == Some(*f),
                None => self.target_filter_spec() is None,
            },
    {
        match self {
            Effect::Draw { target, .. } => Some(target),
            Effect::Discard { target, .. } => Some(target),
            Effect::DealDamage { target, .. } => Some(target),
            Effect::Destroy { target, .. } => Some(target),
            Effect::Bounce { target, .. } => Some(target),
            Effect::Counter { target } => Some(target),
            Effect::CopySpell { target } => Some(target),
            Effect::ChangeZone { target, .. } => Some(target),
            Effect::PutAtLibraryPosition { target, .. } => Some(target),
            Effect::PutCounter { target, .. } => Some(target),
            Effect::Pump { target, .. } => Some(target),
            Effect::Sacrifice { target, .. } => Some(target),
            Effect::PairWith { target } => Some(target),
            Effect::RevealHand { target, .. } => Some(target),
            Effect::CopyTokenOf { target, .. } => Some(target),
            Effect::CantAttack { target } => Some(target),
            Effect::Goad { target } => Some(target),
            Effect::LoseLife { target, .. } => target.as_ref(),
            Effect::Mana { target, .. } => target.as_ref(),
            _ => None,
        }
    }
}

#[derive(Debug, PartialEq, Eq)]
pub struct AbilityDefinition {
    pub kind: AbilityKind,
    pub effect: Rc<Effect>,
    pub sub_ability: Option<Rc<AbilityDefinition>>,
    pub description: Option<Text>,
    pub condition: Option<AbilityCondition>,
    pub duration: Option<Duration>,
    pub optional: bool,
    pub optional_targeting: bool,
    pub multi_target: Option<MultiTargetSpec>,
    pub target_selection_mode: TargetSelectionMode,
    pub distribute: Option<DistributionUnit>,
    pub modal: Option<ModalChoice>,
    pub mode_abilities: Option<List<AbilityDefinition>>,
    pub player_scope: Option<PlayerFilter>,
    pub repeat_for: Option<Rc<QuantityExpr>>,
}

impl AbilityDefinition {
    pub open spec fn plain(kind: AbilityKind, effect: Effect) -> AbilityDefinition {
        AbilityDefinition {
            kind,
            effect: Rc::new(effect),
            sub_ability: None,
            description: None,
            condition: None,
            duration: None,
            optional: false,
            optional_targeting: false,
            multi_target: None,
            target_selection_mode: TargetSelectionMode::Chosen,
            distribute: None,
            modal: None,
            mode_abilities: None,
            player_scope: None,
            repeat_for: None,
        }
    }

    pub fn new(kind: AbilityKind, effect: Effect) -> (r: Self)
        ensures
            r == AbilityDefinition::plain(kind, effect),
    {
        AbilityDefinition {
            kind,
            effect: Rc::new(effect),
            sub_ability: None,
            description: None,
            condition: None,
            duration: None,
            optional: false,
            optional_targeting: false,
            multi_target: None,
            target_selection_mode: TargetSelectionMode::Chosen,
            distribute: None,
            modal: None,
            mode_abilities: None,
            player_scope: None,
            repeat_for: None,
        }
    }
}

#[derive(Clone, Copy, Debug, PartialEq, Eq, Structural)]
pub enum TriggerMode {
    ChangesZone,
    SpellCast,
    Attacks,
    DamageDone,
    DamageDoneOnceByController,
    Sacrificed,
    CommitCrime,
    Drawn,
    TokenCreated,
    DiscardedAll,
    TapsForMana,
    BecomesTarget,
    Phase,
    SaddlesOrCrews,
    StateCondition,
    LifeLost,
    Firebend,
}

#[derive(Clone, Copy, Debug, PartialEq, Eq, Structural)]
pub enum AttackTargetFilter {
    Player,
    Planeswalker,
    Battle,
}

#[derive(Debug, PartialEq, Eq)]
pub struct TriggerDefinition {
    pub mode: TriggerMode,
    pub execute: Option<Rc<AbilityDefinition>>,
    pub valid_card: Option<TargetFilter>,
    pub valid_source: Option<TargetFilter>,
    pub valid_target: Option<TargetFilter>,
    pub origin: Option<Zone>,
    pub destination: Option<Zone>,
    pub phase: Option<Phase>,
    pub attack_target_filter: Option<AttackTargetFilter>,
    pub trigger_zones: List<Zone>,
    pub condition: Option<Rc<TriggerCondition>>,
    pub constraint: Option<Rc<TriggerConstraint>>,
    pub description: Option<Text>,
    pub unless_pay: Option<Rc<UnlessPayModifier>>,
    pub batched: bool,
}

impl TriggerDefinition {
    pub fn new(mode: TriggerMode) -> (r: Self)
        ensures
            r == (TriggerDefinition {
                mode,
                execute: None,
                valid_card: None,
                valid_source: None,
                valid_target: None,
                origin: None,
                destination: None,
                phase: None,
                attack_target_filter: None,
                trigger_zones: list_of(seq![]),
                condition: None,
                constraint: None,
                description: None,
                unless_pay: None,
                batched: false,
            }),
    {
        TriggerDefinition {
            mode,
            execute: None,
            valid_card: None,
            valid_source: None,
            valid_target: None,
            origin: None,
            destination: None,
            phase: None,
            attack_target_filter: None,
            trigger_zones: List::new(),
            condition: None,
            constraint: None,
            description: None,
            unless_pay: None,
            batched: false,
        }
    }
}

#[derive(Debug, PartialEq, Eq)]
pub enum TriggerCause {
    Any,
    EntersBattlefield { core_types: List<CoreType> },
    CreatureAttacking,
    CreatureDying,
}

#[derive(Clone, Copy, Debug, PartialEq, Eq, Structural)]
pub enum SuppressedTriggerEvent {
    EntersBattlefield,
    Dies,
}

impl crate::list::Same for SuppressedTriggerEvent {
    fn same(&self, other: &Self) -> (r: bool) {
        *self == *other
    }
}

#[derive(Debug, PartialEq, Eq)]
pub enum StaticMode {
    Continuous,
    DoubleTriggers { cause: TriggerCause },
    SuppressTriggers { source_filter: TargetFilter, events: List<SuppressedTriggerEvent> },
    CastWithKeyword { keyword: Keyword },
    /// The affected sources deal no damage to what the filter lets through.
    ProhibitDamage { recipient: Option<TargetFilter> },
}

#[derive(Debug, PartialEq, Eq)]
pub enum ContinuousModification {
    AddPower { value: i32 },
    AddToughness { value: i32 },
    AddKeyword { keyword: Rc<Keyword> },
    GrantTrigger { trigger: Rc<TriggerDefinition> },
    AddChosenCreatureType,
}

#[derive(Debug, PartialEq, Eq)]
pub struct StaticDefinition {
    pub mode: StaticMode,
    pub affected: Option<TargetFilter>,
    pub condition: Option<Rc<TriggerCondition>>,
    pub modifications: List<ContinuousModification>,
}

#[derive(Clone, Copy, Debug, PartialEq, Eq, Structural)]
pub enum DamageTargetPlayerScope {
    Specific(PlayerId),
    Any,
}

#[derive(Clone, Copy, Debug, PartialEq, Eq, Structural)]
pub enum DamageTargetFilter {
    Player { player: DamageTargetPlayerScope },
    Object { id: ObjectId },
}

/// What a shield does besides preventing damage (CR 615.5): tokens under a player's control, made
/// as many times over as a quantity says, or once where there is none.
#[derive(Debug, PartialEq, Eq)]
pub struct TokenRider {
    pub tokens: TokenSpec,
    pub repeat_for: Option<QuantityExpr>,
    pub source_id: ObjectId,
    pub controller: PlayerId,
}

/// A shield that prevents all damage of the kind it names, with what it does besides.
#[derive(Debug, PartialEq, Eq)]
pub struct ReplacementDefinition {
    pub combat_only: bool,
    pub damage_target_filter: Option<DamageTargetFilter>,
    pub runtime_execute: Option<Rc<TokenRider>>,
}

#[derive(Debug, PartialEq, Eq)]
pub struct SpellContext {
    pub additional_cost_paid: bool,
    pub cast_from_zone: Option<Zone>,
    pub kickers_paid: List<KickerVariant>,
}

impl Clone for SpellContext {
    fn clone(&self) -> (r: Self)
        ensures
            r == *self,
    {
        SpellContext {
            additional_cost_paid: self.additional_cost_paid,
            cast_from_zone: self.cast_from_zone,
            kickers_paid: self.kickers_paid.clone(),
        }
    }
}

/// An ability that has been put on the stack, or is about to be.
#[derive(Debug, PartialEq, Eq)]
pub struct ResolvedAbility {
    pub kind: AbilityKind,
    pub effect: Rc<Effect>,
    pub targets: List<TargetRef>,
    pub source_id: ObjectId,
    pub controller: PlayerId,
    pub sub_ability: Option<Rc<ResolvedAbility>>,
    pub description: Option<Text>,
    pub condition: Option<AbilityCondition>,
    pub duration: Option<Duration>,
    pub optional: bool,
    pub optional_targeting: bool,
    pub multi_target: Option<MultiTargetSpec>,
    pub target_selection_mode: TargetSelectionMode,
    pub distribution: Option<List<(TargetRef, u32)>>,
    pub context: SpellContext,
    pub unless_pay: Option<Rc<UnlessPayModifier>>,
    pub scoped_player: Option<PlayerId>,
    pub player_scope: Option<PlayerFilter>,
    pub may_trigger_origin: Option<MayTriggerOrigin>,
    pub ability_index: Option<usize>,
    pub repeat_for: Option<Rc<QuantityExpr>>,
}

impl Clone for ResolvedAbility {
    fn clone(&self) -> (r: Self)
        ensures
            r == *self,
    {
        ResolvedAbility {
            kind: self.kind,
            effect: self.effect.clone(),
            targets: self.targets.clone(),
            source_id: self.source_id,
            controller: self.controller,
            sub_ability: copy_rc(&self.sub_ability),
            description: copy_text(&self.description),
            condition: self.condition,
            duration: self.duration,
            optional: self.optional,
            optional_targeting: self.optional_targeting,
            multi_target: self.multi_target,
            target_selection_mode: self.target_selection_mode,
            distribution: match &self.distribution {
                None => None,
                Some(d) => Some(d.clone()),
            },
            context: self.context.clone(),
            unless_pay: copy_rc(&self.unless_pay),
            scoped_player: self.scoped_player,
            player_scope: self.player_scope,
            may_trigger_origin: self.may_trigger_origin,
            ability_index: self.ability_index,
            repeat_for: copy_rc(&self.repeat_for),
        }
    }
}

impl ResolvedAbility {
    /// An ability with the given effect and nothing else of note.
    pub open spec fn plain(
        effect: Effect,
        targets: Seq<TargetRef>,
        source_id: ObjectId,
        controller: PlayerId,
    ) -> ResolvedAbility {
        ResolvedAbility {
            kind: AbilityKind::Spell,
            effect: Rc::new(effect),
            targets: list_of(targets),
            source_id,
            controller,
            sub_ability: None,
            description: None,
            condition: None,
            duration: None,
            optional: false,
            optional_targeting: false,
            multi_target: None,
            target_selection_mode: TargetSelectionMode::Chosen,
            distribution: None,
            context: SpellContext {
                additional_cost_paid: false,
                cast_from_zone: None,
                kickers_paid: list_of(seq![]),
            },
            unless_pay: None,
            scoped_player: None,
            player_scope: None,
            may_trigger_origin: None,
            ability_index: None,
            repeat_for: None,
        }
    }

    pub fn new(
        effect: Effect,
        targets: Vec<TargetRef>,
        source_id: ObjectId,
        controller: PlayerId,
    ) -> (r: Self)
        ensures
            r == ResolvedAbility::plain(effect, targets@, source_id, controller),
    {
        ResolvedAbility {
            kind: AbilityKind::Spell,
            effect: Rc::new(effect),
            targets: List::from_vec(targets),
            source_id,
            controller,
            sub_ability: None,
            description: None,
            condition: None,
            duration: None,
            optional: false,
            optional_targeting: false,
            multi_target: None,
            target_selection_mode: TargetSelectionMode::Chosen,
            distribution: None,
            context: SpellContext {
                additional_cost_paid: false,
                cast_from_zone: None,
                kickers_paid: List::new(),
            },
            unless_pay: None,
            scoped_player: None,
            player_scope: None,
            may_trigger_origin: None,
            ability_index: None,
            repeat_for: None,
        }
    }

    pub open spec fn with_may_trigger_origin(self, origin: MayTriggerOrigin) -> ResolvedAbility
        decreases self,
    {
        ResolvedAbility {
            may_trigger_origin: Some(origin),
            sub_ability: match self.sub_ability {
                None => None,
                Some(sub) => Some(Rc::new(sub.with_may_trigger_origin(origin))),
            },
            ..self
        }
    }

    /// Marks the ability and every ability chained behind it.
    pub fn set_may_trigger_origin_recursive(&mut self, origin: MayTriggerOrigin)
        ensures
            *final(self) == old(self).with_may_trigger_origin(origin),
        decreases *old(self),
    {
        self.may_trigger_origin = Some(origin);
        if let Some(sub) = &self.sub_ability {
            let mut next: ResolvedAbility = (**sub).clone();
            next.set_may_trigger_origin_recursive(origin);
            self.sub_ability = Some(Rc::new(next));
        }
    }

    pub open spec fn with_scoped_player(self, player: PlayerId) -> ResolvedAbility
        decreases self,
    {
        ResolvedAbility {
            scoped_player: Some(player),
            sub_ability: match self.sub_ability {
                None => None,
                Some(sub) => Some(Rc::new(sub.with_scoped_player(player))),
            },
            ..self
        }
    }

    /// Binds "that player" in the ability and in every ability chained behind it.
    pub fn set_scoped_player_recursive(&mut self, player: PlayerId)
        ensures
            *final(self) == old(self).with_scoped_player(player),
        decreases *old(self),
    {
        self.scoped_player = Some(player);
        if let Some(sub) = &self.sub_ability {
            let mut next: ResolvedAbility = (**sub).clone();
            next.set_scoped_player_recursive(player);
            self.sub_ability = Some(Rc::new(next));
        }
    }
}

} // verus!
