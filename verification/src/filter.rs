//! Which objects, records and players a filter lets through.

use crate::ability::{
    AttachmentKind, FilterProp, SharedQuality, SharedQualityRelation, TargetFilter, TypeFilter,
    TypedFilter,
};
use crate::events::{keyword_kinds, kinds_of, GameEvent, ZoneChangeRecord};
use crate::id_map::at;
use crate::ids::{ControllerRef, CoreType, KeywordKind, ObjectId, PlayerId, Zone};
use crate::list::{list_of, List};
use crate::object::{AttachTarget, GameObject, SpellCastRecord};
use crate::state::{Game, GameState};
use crate::text::Text;
use std::rc::Rc;
use vstd::prelude::*;

verus! {

/// What a filter is judged against: an object as it is now, as it was when it last changed
/// zones, or as it was when it was cast.
pub struct Subject {
    pub id: Option<ObjectId>,
    pub controller: PlayerId,
    pub owner: PlayerId,
    pub zone: Zone,
    pub name: Text,
    pub core_types: List<CoreType>,
    pub subtypes: List<Text>,
    pub keywords: List<KeywordKind>,
    pub has_counters: bool,
    pub is_token: bool,
    pub is_commander: bool,
    pub entered_turn: Option<u32>,
    pub has_x: bool,
    pub attachments: List<ObjectId>,
}

/// Whose ability asks, and what set it off.
#[derive(Clone, Copy, Debug)]
pub struct FilterContext {
    pub source_id: ObjectId,
    pub controller: Option<PlayerId>,
    pub trigger_object: Option<ObjectId>,
}

pub open spec fn source_context(g: Game, source_id: ObjectId) -> FilterContext {
    FilterContext { source_id, controller: g.controller_of(source_id), trigger_object: None }
}

impl FilterContext {
    pub fn from_source(state: &GameState, source_id: ObjectId) -> (r: Self)
        ensures
            r == source_context(state@, source_id),
    {
        FilterContext {
            source_id,
            controller: match state.objects.get(&source_id) {
                None => None,
                Some(o) => Some(o.controller),
            },
            trigger_object: None,
        }
    }

    pub fn from_source_with_controller(source_id: ObjectId, controller: PlayerId) -> (r: Self)
        ensures
            r == (FilterContext { source_id, controller: Some(controller), trigger_object: None }),
    {
        FilterContext { source_id, controller: Some(controller), trigger_object: None }
    }
}

/// An object as it is now.
pub open spec fn live_subject(o: GameObject) -> Subject {
    Subject {
        id: Some(o.id),
        controller: o.controller,
        owner: o.owner,
        zone: o.zone,
        name: o.name,
        core_types: o.card_types.core_types,
        subtypes: o.card_types.subtypes,
        keywords: keyword_kinds(o.keywords),
        has_counters: o.counters.total() > 0,
        is_token: o.is_token,
        is_commander: o.is_commander,
        entered_turn: o.entered_battlefield_turn,
        has_x: false,
        attachments: o.attachments,
    }
}

pub fn subject_of(o: &GameObject) -> (r: Subject)
    ensures
        r == live_subject(*o),
{
    Subject {
        id: Some(o.id),
        controller: o.controller,
        owner: o.owner,
        zone: o.zone,
        name: o.name.clone(),
        core_types: o.card_types.core_types.clone(),
        subtypes: o.card_types.subtypes.clone(),
        keywords: kinds_of(&o.keywords),
        has_counters: o.counters.sum() > 0,
        is_token: o.is_token,
        is_commander: o.is_commander,
        entered_turn: o.entered_battlefield_turn,
        has_x: false,
        attachments: o.attachments.clone(),
    }
}

/// An object as it was when it changed zones. Its counters are those last known of it
/// (CR 400.7).
pub open spec fn record_subject(g: Game, r: ZoneChangeRecord) -> Subject {
    Subject {
        id: Some(r.object_id),
        controller: r.controller,
        owner: r.owner,
        zone: r.to_zone,
        name: r.name,
        core_types: r.core_types,
        subtypes: r.subtypes,
        keywords: r.keywords,
        has_counters: match at(g.lki_cache, r.object_id) {
            None => false,
            Some(lki) => lki.counters.total() > 0,
        },
        is_token: r.is_token,
        is_commander: r.is_commander,
        entered_turn: None,
        has_x: false,
        attachments: list_of(seq![]),
    }
}

pub fn subject_of_record(state: &GameState, r: &ZoneChangeRecord) -> (s: Subject)
    ensures
        s == record_subject(state@, *r),
{
    Subject {
        id: Some(r.object_id),
        controller: r.controller,
        owner: r.owner,
        zone: r.to_zone,
        name: r.name.clone(),
        core_types: r.core_types.clone(),
        subtypes: r.subtypes.clone(),
        keywords: r.keywords.clone(),
        has_counters: match state.lki_cache.get(&r.object_id) {
            None => false,
            Some(lki) => lki.counters.sum() > 0,
        },
        is_token: r.is_token,
        is_commander: r.is_commander,
        entered_turn: None,
        has_x: false,
        attachments: List::new(),
    }
}

/// A spell as it was when it was cast.
pub open spec fn cast_subject(r: SpellCastRecord, caster: PlayerId) -> Subject {
    Subject {
        id: None,
        controller: caster,
        owner: caster,
        zone: Zone::Stack,
        name: Text::Literal(""),
        core_types: r.core_types,
        subtypes: r.subtypes,
        keywords: keyword_kinds(r.keywords),
        has_counters: false,
        is_token: false,
        is_commander: false,
        entered_turn: None,
        has_x: r.has_x_in_cost,
        attachments: list_of(seq![]),
    }
}

fn subject_of_cast(r: &SpellCastRecord, caster: PlayerId) -> (s: Subject)
    ensures
        s == cast_subject(*r, caster),
{
    Subject {
        id: None,
        controller: caster,
        owner: caster,
        zone: Zone::Stack,
        name: Text::Literal(""),
        core_types: r.core_types.clone(),
        subtypes: r.subtypes.clone(),
        keywords: kinds_of(&r.keywords),
        has_counters: false,
        is_token: false,
        is_commander: false,
        entered_turn: None,
        has_x: r.has_x_in_cost,
        attachments: List::new(),
    }
}

/// Whether one of the texts reads as given.
pub open spec fn reads_among(texts: List<Text>, text: Seq<char>) -> bool
    decreases texts,
{
    match texts.node {
        None => false,
        Some(n) => n.item@ == text || reads_among(n.rest, text),
    }
}

pub fn any_reads(texts: &List<Text>, text: &Text) -> (r: bool)
    ensures
        r == reads_among(*texts, text@),
    decreases texts,
{
    match &texts.node {
        None => false,
        Some(n) => n.item.reads(text) || any_reads(&n.rest, text),
    }
}

/// Whether a card with these types can be a permanent (CR 110.4).
pub open spec fn permanent_types(types: Seq<CoreType>) -> bool {
    types.contains(CoreType::Artifact) || types.contains(CoreType::Battle) || types.contains(
        CoreType::Creature,
    ) || types.contains(CoreType::Enchantment) || types.contains(CoreType::Land) || types.contains(
        CoreType::Planeswalker,
    )
}

pub open spec fn type_matches(s: Subject, f: TypeFilter) -> bool
    decreases f,
{
    match f {
        TypeFilter::Artifact => s.core_types@.contains(CoreType::Artifact),
        TypeFilter::Battle => s.core_types@.contains(CoreType::Battle),
        TypeFilter::Creature => s.core_types@.contains(CoreType::Creature),
        TypeFilter::Enchantment => s.core_types@.contains(CoreType::Enchantment),
        TypeFilter::Instant => s.core_types@.contains(CoreType::Instant),
        TypeFilter::Land => s.core_types@.contains(CoreType::Land),
        TypeFilter::Planeswalker => s.core_types@.contains(CoreType::Planeswalker),
        TypeFilter::Sorcery => s.core_types@.contains(CoreType::Sorcery),
        TypeFilter::Card => true,
        TypeFilter::Permanent => permanent_types(s.core_types@),
        TypeFilter::Subtype(t) => reads_among(s.subtypes, t@),
        TypeFilter::Non(inner) => !type_matches(s, *inner),
        TypeFilter::AnyOf(options) => any_type_matches(s, options),
    }
}

pub open spec fn any_type_matches(s: Subject, fs: List<TypeFilter>) -> bool
    decreases fs,
{
    match fs.node {
        None => false,
        Some(n) => type_matches(s, *n.item) || any_type_matches(s, n.rest),
    }
}

pub open spec fn all_types_match(s: Subject, fs: List<TypeFilter>) -> bool
    decreases fs,
{
    match fs.node {
        None => true,
        Some(n) => type_matches(s, *n.item) && all_types_match(s, n.rest),
    }
}

fn matches_type(s: &Subject, f: &TypeFilter) -> (r: bool)
    ensures
        r == type_matches(*s, *f),
    decreases f,
{
    match f {
        TypeFilter::Artifact => s.core_types.contains(&CoreType::Artifact),
        TypeFilter::Battle => s.core_types.contains(&CoreType::Battle),
        TypeFilter::Creature => s.core_types.contains(&CoreType::Creature),
        TypeFilter::Enchantment => s.core_types.contains(&CoreType::Enchantment),
        TypeFilter::Instant => s.core_types.contains(&CoreType::Instant),
        TypeFilter::Land => s.core_types.contains(&CoreType::Land),
        TypeFilter::Planeswalker => s.core_types.contains(&CoreType::Planeswalker),
        TypeFilter::Sorcery => s.core_types.contains(&CoreType::Sorcery),
        TypeFilter::Card => true,
        TypeFilter::Permanent => s.core_types.contains(&CoreType::Artifact)
            || s.core_types.contains(&CoreType::Battle) || s.core_types.contains(
            &CoreType::Creature,
        ) || s.core_types.contains(&CoreType::Enchantment) || s.core_types.contains(&CoreType::Land)
            || s.core_types.contains(&CoreType::Planeswalker),
        TypeFilter::Subtype(t) => any_reads(&s.subtypes, t),
        TypeFilter::Non(inner) => !matches_type(s, inner),
        TypeFilter::AnyOf(options) => matches_any_type(s, options),
    }
}

fn matches_any_type(s: &Subject, fs: &List<TypeFilter>) -> (r: bool)
    ensures
        r == any_type_matches(*s, *fs),
    decreases fs,
{
    match &fs.node {
        None => false,
        Some(n) => matches_type(s, &n.item) || matches_any_type(s, &n.rest),
    }
}

fn matches_all_types(s: &Subject, fs: &List<TypeFilter>) -> (r: bool)
    ensures
        r == all_types_match(*s, *fs),
    decreases fs,
{
    match &fs.node {
        None => true,
        Some(n) => matches_type(s, &n.item) && matches_all_types(s, &n.rest),
    }
}

/// Whether a player stands to the asking player as the reference says.
pub open spec fn player_matches_ref(
    player: PlayerId,
    reference: ControllerRef,
    asking: Option<PlayerId>,
) -> bool {
    match reference {
        ControllerRef::You => asking == Some(player),
        ControllerRef::Opponent => asking is Some && asking != Some(player),
        ControllerRef::Any => true,
    }
}

fn matches_ref(player: PlayerId, reference: ControllerRef, asking: Option<PlayerId>) -> (r: bool)
    ensures
        r == player_matches_ref(player, reference, asking),
{
    match reference {
        ControllerRef::You => match asking {
            None => false,
            Some(p) => p == player,
        },
        ControllerRef::Opponent => match asking {
            None => false,
            Some(p) => p != player,
        },
        ControllerRef::Any => true,
    }
}

/// The object that an event is about, where there is one.
pub open spec fn event_object(event: GameEvent) -> Option<ObjectId> {
    match event {
        GameEvent::ZoneChanged { object_id, .. } => Some(object_id),
        GameEvent::SpellCast { object_id, .. } => Some(object_id),
        GameEvent::BecomesTarget { object_id, .. } => Some(object_id),
        GameEvent::CardDrawn { object_id, .. } => Some(object_id),
        GameEvent::DamageDealt { source_id, .. } => Some(source_id),
        GameEvent::ManaAdded { source_id, .. } => Some(source_id),
        GameEvent::CounterAdded { object_id, .. } => Some(object_id),
        GameEvent::TokenCreated { object_id, .. } => Some(object_id),
        GameEvent::CreatureDestroyed { object_id } => Some(object_id),
        GameEvent::PermanentSacrificed { object_id, .. } => Some(object_id),
        GameEvent::Discarded { object_id, .. } => Some(object_id),
        GameEvent::VehicleCrewed { vehicle_id, .. } => Some(vehicle_id),
        _ => None,
    }
}

pub fn object_of_event(event: &GameEvent) -> (r: Option<ObjectId>)
    ensures
        r == event_object(*event),
{
    match event {
        GameEvent::ZoneChanged { object_id, .. } => Some(*object_id),
        GameEvent::SpellCast { object_id, .. } => Some(*object_id),
        GameEvent::BecomesTarget { object_id, .. } => Some(*object_id),
        GameEvent::CardDrawn { object_id, .. } => Some(*object_id),
        GameEvent::DamageDealt { source_id, .. } => Some(*source_id),
        GameEvent::ManaAdded { source_id, .. } => Some(*source_id),
        GameEvent::CounterAdded { object_id, .. } => Some(*object_id),
        GameEvent::TokenCreated { object_id, .. } => Some(*object_id),
        GameEvent::CreatureDestroyed { object_id } => Some(*object_id),
        GameEvent::PermanentSacrificed { object_id, .. } => Some(*object_id),
        GameEvent::Discarded { object_id, .. } => Some(*object_id),
        GameEvent::VehicleCrewed { vehicle_id, .. } => Some(*vehicle_id),
        _ => None,
    }
}

/// Whether two type lines have a card type in common.
pub open spec fn types_meet(a: List<CoreType>, b: Seq<CoreType>) -> bool
    decreases a,
{
    match a.node {
        None => false,
        Some(n) => b.contains(*n.item) || types_meet(n.rest, b),
    }
}

pub fn share_type(a: &List<CoreType>, b: &List<CoreType>) -> (r: bool)
    ensures
        r == types_meet(*a, b@),
    decreases a,
{
    match &a.node {
        None => false,
        Some(n) => b.contains(&n.item) || share_type(&n.rest, b),
    }
}

/// Whether a subject shares a quality with the object under the given identifier.
pub open spec fn shares_with(g: Game, s: Subject, quality: SharedQuality, id: ObjectId) -> bool {
    match g.object(id) {
        None => false,
        Some(o) => match quality {
            SharedQuality::CardType => types_meet(s.core_types, o.card_types.core_types@),
            SharedQuality::Name => s.name@ == o.name@,
        },
    }
}

fn has_shared(state: &GameState, s: &Subject, quality: SharedQuality, id: ObjectId) -> (r: bool)
    ensures
        r == shares_with(state@, *s, quality, id),
{
    match state.objects.get(&id) {
        None => false,
        Some(o) => match quality {
            SharedQuality::CardType => share_type(&s.core_types, &o.card_types.core_types),
            SharedQuality::Name => s.name.reads(&o.name),
        },
    }
}

/// Whether a subject shares a quality with the object of one of the events.
pub open spec fn shares_with_events(
    g: Game,
    s: Subject,
    quality: SharedQuality,
    events: List<GameEvent>,
) -> bool
    decreases events,
{
    match events.node {
        None => false,
        Some(n) => (match event_object(*n.item) {
            None => false,
            Some(id) => shares_with(g, s, quality, id),
        }) || shares_with_events(g, s, quality, n.rest),
    }
}

fn shared_with_events(
    state: &GameState,
    s: &Subject,
    quality: SharedQuality,
    events: &List<GameEvent>,
) -> (r: bool)
    ensures
        r == shares_with_events(state@, *s, quality, *events),
    decreases events,
{
    match &events.node {
        None => false,
        Some(n) => (match object_of_event(&n.item) {
            None => false,
            Some(id) => has_shared(state, s, quality, id),
        }) || shared_with_events(state, s, quality, &n.rest),
    }
}

/// Whether a subject shares a quality with what the reference names: the objects of the
/// events that set off the ability that is resolving, or the asking source.
pub open spec fn shares_quality(
    g: Game,
    s: Subject,
    quality: SharedQuality,
    reference: Option<Rc<TargetFilter>>,
    ctx: FilterContext,
) -> bool {
    match reference {
        Some(f) => match *f {
            TargetFilter::TriggeringSource => if g.current_trigger_events@.len() > 0 {
                shares_with_events(g, s, quality, g.current_trigger_events)
            } else {
                match g.current_trigger_event {
                    None => false,
                    Some(e) => match event_object(e) {
                        None => false,
                        Some(id) => shares_with(g, s, quality, id),
                    },
                }
            },
            TargetFilter::SpecificObject { id } => shares_with(g, s, quality, id),
            _ => shares_with(g, s, quality, ctx.source_id),
        },
        None => shares_with(g, s, quality, ctx.source_id),
    }
}

fn has_shared_quality(
    state: &GameState,
    s: &Subject,
    quality: SharedQuality,
    reference: &Option<Rc<TargetFilter>>,
    ctx: &FilterContext,
) -> (r: bool)
    ensures
        r == shares_quality(state@, *s, quality, *reference, *ctx),
{
    match reference {
        Some(f) => match &**f {
            TargetFilter::TriggeringSource => if !state.current_trigger_events.is_empty() {
                shared_with_events(state, s, quality, &state.current_trigger_events)
            } else {
                match &state.current_trigger_event {
                    None => false,
                    Some(e) => match object_of_event(e) {
                        None => false,
                        Some(id) => has_shared(state, s, quality, id),
                    },
                }
            },
            TargetFilter::SpecificObject { id } => has_shared(state, s, quality, *id),
            _ => has_shared(state, s, quality, ctx.source_id),
        },
        None => has_shared(state, s, quality, ctx.source_id),
    }
}

/// Whether the attachment under the given identifier is of the kind and controller asked for.
pub open spec fn attachment_matches(
    g: Game,
    id: ObjectId,
    kind: AttachmentKind,
    controller: Option<ControllerRef>,
    ctx: FilterContext,
) -> bool {
    match g.object(id) {
        None => false,
        Some(o) => {
            &&& reads_among(o.card_types.subtypes, attachment_subtype(kind)@)
            &&& match controller {
                None => true,
                Some(reference) => player_matches_ref(o.controller, reference, ctx.controller),
            }
        },
    }
}

pub open spec fn attachment_subtype(kind: AttachmentKind) -> &'static str {
    match kind {
        AttachmentKind::Aura => "Aura",
        AttachmentKind::Equipment => "Equipment",
    }
}

pub open spec fn has_attachment(
    g: Game,
    ids: List<ObjectId>,
    kind: AttachmentKind,
    controller: Option<ControllerRef>,
    ctx: FilterContext,
) -> bool
    decreases ids,
{
    match ids.node {
        None => false,
        Some(n) => attachment_matches(g, *n.item, kind, controller, ctx) || has_attachment(
            g,
            n.rest,
            kind,
            controller,
            ctx,
        ),
    }
}

fn find_attachment(
    state: &GameState,
    ids: &List<ObjectId>,
    kind: AttachmentKind,
    controller: Option<ControllerRef>,
    ctx: &FilterContext,
) -> (r: bool)
    ensures
        r == has_attachment(state@, *ids, kind, controller, *ctx),
    decreases ids,
{
    match &ids.node {
        None => false,
        Some(n) => {
            let here: bool = match state.objects.get(&n.item) {
                None => false,
                Some(o) => {
                    let word = match kind {
                        AttachmentKind::Aura => "Aura",
                        AttachmentKind::Equipment => "Equipment",
                    };
                    any_reads(&o.card_types.subtypes, &Text::Literal(word)) && match controller {
                        None => true,
                        Some(reference) => matches_ref(o.controller, reference, ctx.controller),
                    }
                },
            };
            here || find_attachment(state, &n.rest, kind, controller, ctx)
        },
    }
}

pub open spec fn property_holds(g: Game, s: Subject, p: FilterProp, ctx: FilterContext) -> bool {
    match p {
        FilterProp::Another => s.id != Some(ctx.source_id),
        FilterProp::OtherThanTriggerObject => s.id is None || s.id != ctx.trigger_object,
        FilterProp::Owned { controller } => player_matches_ref(
            s.owner,
            controller,
            ctx.controller,
        ),
        FilterProp::InZone { zone } => s.zone == zone,
        FilterProp::HasAnyCounter => s.has_counters,
        FilterProp::WithKeyword { value } => s.keywords@.contains(value),
        FilterProp::Token => s.is_token,
        FilterProp::SharesQuality { quality, reference, relation } => {
            let shares = shares_quality(g, s, quality, reference, ctx);
            match relation {
                SharedQualityRelation::Shares => shares,
                SharedQualityRelation::DoesNotShare => !shares,
            }
        },
        FilterProp::SameName => shares_with(g, s, SharedQuality::Name, ctx.source_id),
        FilterProp::IsCommander => s.is_commander,
        FilterProp::HasXInManaCost => s.has_x,
        FilterProp::HasAttachment { kind, controller } => has_attachment(
            g,
            s.attachments,
            kind,
            controller,
            ctx,
        ),
        FilterProp::EnteredThisTurn => s.entered_turn == Some(g.turn_number),
    }
}

fn check_property(state: &GameState, s: &Subject, p: &FilterProp, ctx: &FilterContext) -> (r: bool)
    ensures
        r == property_holds(state@, *s, *p, *ctx),
{
    match p {
        FilterProp::Another => s.id != Some(ctx.source_id),
        FilterProp::OtherThanTriggerObject => s.id.is_none() || s.id != ctx.trigger_object,
        FilterProp::Owned { controller } => matches_ref(s.owner, *controller, ctx.controller),
        FilterProp::InZone { zone } => s.zone == *zone,
        FilterProp::HasAnyCounter => s.has_counters,
        FilterProp::WithKeyword { value } => s.keywords.contains(value),
        FilterProp::Token => s.is_token,
        FilterProp::SharesQuality { quality, reference, relation } => {
            let shares: bool = has_shared_quality(state, s, *quality, reference, ctx);
            match relation {
                SharedQualityRelation::Shares => shares,
                SharedQualityRelation::DoesNotShare => !shares,
            }
        },
        FilterProp::SameName => has_shared(state, s, SharedQuality::Name, ctx.source_id),
        FilterProp::IsCommander => s.is_commander,
        FilterProp::HasXInManaCost => s.has_x,
        FilterProp::HasAttachment { kind, controller } => find_attachment(
            state,
            &s.attachments,
            *kind,
            *controller,
            ctx,
        ),
        FilterProp::EnteredThisTurn => s.entered_turn == Some(state.turn_number),
    }
}

pub open spec fn all_properties_hold(
    g: Game,
    s: Subject,
    ps: List<FilterProp>,
    ctx: FilterContext,
) -> bool
    decreases ps,
{
    match ps.node {
        None => true,
        Some(n) => property_holds(g, s, *n.item, ctx) && all_properties_hold(g, s, n.rest, ctx),
    }
}

fn check_properties(
    state: &GameState,
    s: &Subject,
    ps: &List<FilterProp>,
    ctx: &FilterContext,
) -> (r: bool)
    ensures
        r == all_properties_hold(state@, *s, *ps, *ctx),
    decreases ps,
{
    match &ps.node {
        None => true,
        Some(n) => check_property(state, s, &n.item, ctx) && check_properties(
            state,
            s,
            &n.rest,
            ctx,
        ),
    }
}

pub open spec fn typed_matches(g: Game, s: Subject, f: TypedFilter, ctx: FilterContext) -> bool {
    &&& all_types_match(s, f.type_filters)
    &&& match f.controller {
        None => true,
        Some(reference) => player_matches_ref(s.controller, reference, ctx.controller),
    }
    &&& all_properties_hold(g, s, f.properties, ctx)
}

fn matches_typed(state: &GameState, s: &Subject, f: &TypedFilter, ctx: &FilterContext) -> (r: bool)
    ensures
        r == typed_matches(state@, *s, *f, *ctx),
{
    matches_all_types(s, &f.type_filters) && (match f.controller {
        None => true,
        Some(reference) => matches_ref(s.controller, reference, ctx.controller),
    }) && check_properties(state, s, &f.properties, ctx)
}

/// Whether a filter lets a subject through. Filters that name players let no object through.
pub open spec fn subject_matches(g: Game, s: Subject, f: TargetFilter, ctx: FilterContext) -> bool
    decreases f,
{
    match f {
        TargetFilter::Any => true,
        TargetFilter::SelfRef => s.id == Some(ctx.source_id),
        TargetFilter::Typed(typed) => typed_matches(g, s, typed, ctx),
        TargetFilter::Not { filter } => !subject_matches(g, s, *filter, ctx),
        TargetFilter::Or { filters } => any_filter_matches(g, s, filters, ctx),
        TargetFilter::And { filters } => all_filters_match(g, s, filters, ctx),
        TargetFilter::SpecificObject { id } => s.id == Some(id),
        TargetFilter::AttachedTo => s.id is Some && (match g.object(ctx.source_id) {
            None => false,
            Some(source) => source.attached_to == Some(AttachTarget::Object(s.id->0)),
        }),
        TargetFilter::TrackedSet { id } => s.id is Some && (match at(g.tracked_object_sets, id) {
            None => false,
            Some(ids) => ids@.contains(s.id->0),
        }),
        TargetFilter::ExiledBySource => s.id is Some && g.exile_links.contains(
            (ctx.source_id, s.id->0),
        ),
        TargetFilter::SourceOrPaired => s.id is Some && (s.id == Some(ctx.source_id) || (
        match g.object(ctx.source_id) {
            None => false,
            Some(source) => source.paired_with == s.id,
        })),
        TargetFilter::TriggeringSource => s.id is Some && (match g.current_trigger_event {
            None => false,
            Some(e) => event_object(e) == s.id,
        }),
        _ => false,
    }
}

pub open spec fn any_filter_matches(
    g: Game,
    s: Subject,
    fs: List<TargetFilter>,
    ctx: FilterContext,
) -> bool
    decreases fs,
{
    match fs.node {
        None => false,
        Some(n) => subject_matches(g, s, *n.item, ctx) || any_filter_matches(g, s, n.rest, ctx),
    }
}

pub open spec fn all_filters_match(
    g: Game,
    s: Subject,
    fs: List<TargetFilter>,
    ctx: FilterContext,
) -> bool
    decreases fs,
{
    match fs.node {
        None => true,
        Some(n) => subject_matches(g, s, *n.item, ctx) && all_filters_match(g, s, n.rest, ctx),
    }
}

fn holds_link(links: &Vec<(ObjectId, ObjectId)>, link: (ObjectId, ObjectId)) -> (r: bool)
    ensures
        r == links@.contains(link),
{
    let mut i: usize = 0;
    while i < links.len()
        invariant
            i <= links@.len(),
            forall|j: int| 0 <= j < i ==> links@[j] != link,
        decreases links@.len() - i,
    {
        if links[i].0 == link.0 && links[i].1 == link.1 {
            assert(links@[i as int] == link);
            return true;
        }
        i = i + 1;
    }
    false
}

pub fn matches_subject(
    state: &GameState,
    s: &Subject,
    f: &TargetFilter,
    ctx: &FilterContext,
) -> (r: bool)
    ensures
        r == subject_matches(state@, *s, *f, *ctx),
    decreases f,
{
    match f {
        TargetFilter::Any => true,
        TargetFilter::SelfRef => s.id == Some(ctx.source_id),
        TargetFilter::Typed(typed) => matches_typed(state, s, typed, ctx),
        TargetFilter::Not { filter } => !matches_subject(state, s, filter, ctx),
        TargetFilter::Or { filters } => matches_any(state, s, filters, ctx),
        TargetFilter::And { filters } => matches_all(state, s, filters, ctx),
        TargetFilter::SpecificObject { id } => s.id == Some(*id),
        TargetFilter::AttachedTo => match s.id {
            None => false,
            Some(sid) => match state.objects.get(&ctx.source_id) {
                None => false,
                Some(source) => source.attached_to == Some(AttachTarget::Object(sid)),
            },
        },
        TargetFilter::TrackedSet { id } => match s.id {
            None => false,
            Some(sid) => match state.tracked_object_sets.get(id) {
                None => false,
                Some(ids) => ids.contains(&sid),
            },
        },
        TargetFilter::ExiledBySource => match s.id {
            None => false,
            Some(sid) => holds_link(&state.exile_links, (ctx.source_id, sid)),
        },
        TargetFilter::SourceOrPaired => match s.id {
            None => false,
            Some(sid) => sid == ctx.source_id || match state.objects.get(&ctx.source_id) {
                None => false,
                Some(source) => source.paired_with == s.id,
            },
        },
        TargetFilter::TriggeringSource => match s.id {
            None => false,
            Some(_) => match &state.current_trigger_event {
                None => false,
                Some(e) => object_of_event(e) == s.id,
            },
        },
        _ => false,
    }
}

fn matches_any(
    state: &GameState,
    s: &Subject,
    fs: &List<TargetFilter>,
    ctx: &FilterContext,
) -> (r: bool)
    ensures
        r == any_filter_matches(state@, *s, *fs, *ctx),
    decreases fs,
{
    match &fs.node {
        None => false,
        Some(n) => matches_subject(state, s, &n.item, ctx) || matches_any(state, s, &n.rest, ctx),
    }
}

fn matches_all(
    state: &GameState,
    s: &Subject,
    fs: &List<TargetFilter>,
    ctx: &FilterContext,
) -> (r: bool)
    ensures
        r == all_filters_match(state@, *s, *fs, *ctx),
    decreases fs,
{
    match &fs.node {
        None => true,
        Some(n) => matches_subject(state, s, &n.item, ctx) && matches_all(state, s, &n.rest, ctx),
    }
}

/// Whether a filter lets the object under the given identifier through, as it is now.
pub open spec fn object_matches(
    g: Game,
    id: ObjectId,
    f: TargetFilter,
    ctx: FilterContext,
) -> bool {
    match g.object(id) {
        None => false,
        Some(o) => subject_matches(g, live_subject(o), f, ctx),
    }
}

pub fn matches_target_filter(
    state: &GameState,
    id: ObjectId,
    f: &TargetFilter,
    ctx: &FilterContext,
) -> (r: bool)
    ensures
        r == object_matches(state@, id, *f, *ctx),
{
    match state.objects.get(&id) {
        None => false,
        Some(o) => matches_subject(state, &subject_of(o), f, ctx),
    }
}

pub fn matches_target_filter_on_zone_change_record(
    state: &GameState,
    record: &ZoneChangeRecord,
    f: &TargetFilter,
    ctx: &FilterContext,
) -> (r: bool)
    ensures
        r == subject_matches(state@, record_subject(state@, *record), *f, *ctx),
{
    matches_subject(state, &subject_of_record(state, record), f, ctx)
}

/// The object that a zone change moved: as it is now if it is on the battlefield that it came
/// to, else as it was when it moved.
pub open spec fn moved_subject(
    g: Game,
    object_id: ObjectId,
    to: Zone,
    record: ZoneChangeRecord,
) -> Subject {
    if to == Zone::Battlefield && g.on_battlefield(object_id) {
        live_subject(g.object(object_id)->0)
    } else {
        record_subject(g, record)
    }
}

pub fn subject_of_move(
    state: &GameState,
    object_id: ObjectId,
    to: Zone,
    record: &ZoneChangeRecord,
) -> (s: Subject)
    ensures
        s == moved_subject(state@, object_id, to, *record),
{
    if to == Zone::Battlefield {
        if let Some(o) = state.objects.get(&object_id) {
            if o.zone == Zone::Battlefield {
                return subject_of(o);
            }
        }
    }
    subject_of_record(state, record)
}

/// Whether an event moved an object, from and to the zones asked for, that a filter lets
/// through.
pub open spec fn move_matches(
    g: Game,
    event: GameEvent,
    origin: Option<Zone>,
    destination: Zone,
    f: TargetFilter,
    ctx: FilterContext,
) -> bool {
    match event {
        GameEvent::ZoneChanged { object_id, from, to, record } => {
            &&& origin is None || from == origin
            &&& to == destination
            &&& subject_matches(g, moved_subject(g, object_id, to, *record), f, ctx)
        },
        _ => false,
    }
}

pub fn matches_zone_change_event_object_filter(
    state: &GameState,
    event: &GameEvent,
    origin: Option<Zone>,
    destination: Zone,
    f: &TargetFilter,
    ctx: &FilterContext,
) -> (r: bool)
    ensures
        r == move_matches(state@, *event, origin, destination, *f, *ctx),
{
    match event {
        GameEvent::ZoneChanged { object_id, from, to, record } => (origin.is_none() || *from
            == origin) && *to == destination && matches_subject(
            state,
            &subject_of_move(state, *object_id, *to, record),
            f,
            ctx,
        ),
        _ => false,
    }
}

/// Whether a filter lets through a spell that `caster` cast.
pub open spec fn cast_matches(
    g: Game,
    r: SpellCastRecord,
    f: TargetFilter,
    caster: PlayerId,
) -> bool {
    subject_matches(
        g,
        cast_subject(r, caster),
        f,
        FilterContext { source_id: ObjectId(0), controller: Some(caster), trigger_object: None },
    )
}

pub fn spell_record_matches_filter(
    state: &GameState,
    r: &SpellCastRecord,
    f: &TargetFilter,
    caster: PlayerId,
) -> (b: bool)
    ensures
        b == cast_matches(state@, *r, *f, caster),
{
    matches_subject(
        state,
        &subject_of_cast(r, caster),
        f,
        &FilterContext::from_source_with_controller(ObjectId(0), caster),
    )
}

/// Whether a filter lets a player through.
pub open spec fn player_matches(p: PlayerId, f: TargetFilter, ctx: FilterContext) -> bool
    decreases f,
{
    match f {
        TargetFilter::Any => true,
        TargetFilter::Player => true,
        TargetFilter::Controller => ctx.controller == Some(p),
        TargetFilter::Typed(typed) => typed.type_filters@.len() == 0 && typed.properties@.len() == 0
            && typed.controller is Some && player_matches_ref(
            p,
            typed.controller->0,
            ctx.controller,
        ),
        TargetFilter::Not { filter } => !player_matches(p, *filter, ctx),
        TargetFilter::Or { filters } => any_player_filter(p, filters, ctx),
        TargetFilter::And { filters } => all_player_filters(p, filters, ctx),
        _ => false,
    }
}

pub open spec fn any_player_filter(p: PlayerId, fs: List<TargetFilter>, ctx: FilterContext) -> bool
    decreases fs,
{
    match fs.node {
        None => false,
        Some(n) => player_matches(p, *n.item, ctx) || any_player_filter(p, n.rest, ctx),
    }
}

pub open spec fn all_player_filters(p: PlayerId, fs: List<TargetFilter>, ctx: FilterContext) -> bool
    decreases fs,
{
    match fs.node {
        None => true,
        Some(n) => player_matches(p, *n.item, ctx) && all_player_filters(p, n.rest, ctx),
    }
}

pub fn matches_player(p: PlayerId, f: &TargetFilter, ctx: &FilterContext) -> (r: bool)
    ensures
        r == player_matches(p, *f, *ctx),
    decreases f,
{
    match f {
        TargetFilter::Any => true,
        TargetFilter::Player => true,
        TargetFilter::Controller => match ctx.controller {
            None => false,
            Some(c) => c == p,
        },
        TargetFilter::Typed(typed) => match typed.controller {
            None => false,
            Some(reference) => typed.type_filters.is_empty() && typed.properties.is_empty()
                && matches_ref(p, reference, ctx.controller),
        },
        TargetFilter::Not { filter } => !matches_player(p, filter, ctx),
        TargetFilter::Or { filters } => matches_any_player(p, filters, ctx),
        TargetFilter::And { filters } => matches_all_players(p, filters, ctx),
        _ => false,
    }
}

fn matches_any_player(p: PlayerId, fs: &List<TargetFilter>, ctx: &FilterContext) -> (r: bool)
    ensures
        r == any_player_filter(p, *fs, *ctx),
    decreases fs,
{
    match &fs.node {
        None => false,
        Some(n) => matches_player(p, &n.item, ctx) || matches_any_player(p, &n.rest, ctx),
    }
}

fn matches_all_players(p: PlayerId, fs: &List<TargetFilter>, ctx: &FilterContext) -> (r: bool)
    ensures
        r == all_player_filters(p, *fs, *ctx),
    decreases fs,
{
    match &fs.node {
        None => true,
        Some(n) => matches_player(p, &n.item, ctx) && matches_all_players(p, &n.rest, ctx),
    }
}

} // verus!
