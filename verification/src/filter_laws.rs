//! What filters let through: objects by their types, controllers and properties, and players.

use crate::ability::{
    AttachmentKind, FilterProp, Keyword, SharedQuality, SharedQualityRelation, TargetFilter,
    TypeFilter, TypedFilter,
};
use crate::events::{keyword_kinds, GameEvent, ZoneChangeRecord};
use crate::filter::{
    all_filters_match, all_player_filters, all_properties_hold, all_types_match, any_filter_matches,
    any_player_filter, any_type_matches, attachment_subtype, cast_matches, cast_subject,
    has_attachment, live_subject, move_matches, object_matches, player_matches, property_holds,
    reads_among, record_subject, subject_matches, type_matches, types_meet, FilterContext, Subject,
};
use crate::ids::{ControllerRef, CoreType, KeywordKind, ObjectId, PlayerId, TrackedSetId, Zone};
use crate::list::{list_rest, List};
use crate::object::{AttachTarget, GameObject, SpellCastRecord};
use crate::state::Game;
use crate::text::Text;
use std::rc::Rc;
use vstd::prelude::*;

verus! {

/// A list that is not empty is its first item, then the rest.
proof fn lemma_first_and_rest<T>(list: List<T>)
    requires
        list.node is Some,
    ensures
        list@.len() == list_rest(list)@.len() + 1,
        list@[0] == *list.node->0.item,
        forall|j: int| 0 < j < list@.len() ==> #[trigger] list@[j] == list_rest(list)@[j - 1],
        forall|j: int|
            0 <= j < list_rest(list)@.len() ==> #[trigger] list_rest(list)@[j] == list@[j + 1],
{
}

proof fn lemma_reads(fs: List<Text>, text: Seq<char>)
    ensures
        reads_among(fs, text) <==> exists|i: int|
            0 <= i < fs@.len() && (#[trigger] fs@[i])@ == text,
    decreases fs,
{
    if fs.node is Some {
        let rest = list_rest(fs);
        lemma_reads(rest, text);
        lemma_first_and_rest(fs);
        let items = fs@;
        let tail = rest@;
        if exists|j: int| 0 <= j < tail.len() && (#[trigger] tail[j])@ == text {
            let j = choose|j: int| 0 <= j < tail.len() && (#[trigger] tail[j])@ == text;
            assert(items[j + 1] == tail[j]);
        }
    }
}

proof fn lemma_any_type(s: Subject, fs: List<TypeFilter>)
    ensures
        any_type_matches(s, fs) <==> exists|i: int|
            0 <= i < fs@.len() && type_matches(s, #[trigger] fs@[i]),
    decreases fs,
{
    if fs.node is Some {
        let rest = list_rest(fs);
        lemma_any_type(s, rest);
        lemma_first_and_rest(fs);
        let items = fs@;
        let tail = rest@;
        if exists|j: int| 0 <= j < tail.len() && type_matches(s, #[trigger] tail[j]) {
            let j = choose|j: int| 0 <= j < tail.len() && type_matches(s, #[trigger] tail[j]);
            assert(items[j + 1] == tail[j]);
        }
    }
}

proof fn lemma_all_types(s: Subject, fs: List<TypeFilter>)
    ensures
        all_types_match(s, fs) <==> forall|i: int|
            0 <= i < fs@.len() ==> type_matches(s, #[trigger] fs@[i]),
    decreases fs,
{
    if fs.node is Some {
        let rest = list_rest(fs);
        lemma_all_types(s, rest);
        lemma_first_and_rest(fs);
        let items = fs@;
        let tail = rest@;
        if exists|j: int| 0 <= j < tail.len() && !(type_matches(s, #[trigger] tail[j])) {
            let j = choose|j: int| 0 <= j < tail.len() && !(type_matches(s, #[trigger] tail[j]));
            assert(items[j + 1] == tail[j]);
        }
    }
}

proof fn lemma_types_meet(fs: List<CoreType>, b: Seq<CoreType>)
    ensures
        types_meet(fs, b) <==> exists|i: int| 0 <= i < fs@.len() && b.contains(#[trigger] fs@[i]),
    decreases fs,
{
    if fs.node is Some {
        let rest = list_rest(fs);
        lemma_types_meet(rest, b);
        lemma_first_and_rest(fs);
        let items = fs@;
        let tail = rest@;
        if exists|j: int| 0 <= j < tail.len() && b.contains(#[trigger] tail[j]) {
            let j = choose|j: int| 0 <= j < tail.len() && b.contains(#[trigger] tail[j]);
            assert(items[j + 1] == tail[j]);
        }
    }
}

proof fn lemma_properties(g: Game, s: Subject, fs: List<FilterProp>, ctx: FilterContext)
    ensures
        all_properties_hold(g, s, fs, ctx) <==> forall|i: int|
            0 <= i < fs@.len() ==> property_holds(g, s, #[trigger] fs@[i], ctx),
    decreases fs,
{
    if fs.node is Some {
        let rest = list_rest(fs);
        lemma_properties(g, s, rest, ctx);
        lemma_first_and_rest(fs);
        let items = fs@;
        let tail = rest@;
        if exists|j: int| 0 <= j < tail.len() && !(property_holds(g, s, #[trigger] tail[j], ctx)) {
            let j = choose|j: int|
                0 <= j < tail.len() && !(property_holds(g, s, #[trigger] tail[j], ctx));
            assert(items[j + 1] == tail[j]);
        }
    }
}

proof fn lemma_any_filter(g: Game, s: Subject, fs: List<TargetFilter>, ctx: FilterContext)
    ensures
        any_filter_matches(g, s, fs, ctx) <==> exists|i: int|
            0 <= i < fs@.len() && subject_matches(g, s, #[trigger] fs@[i], ctx),
    decreases fs,
{
    if fs.node is Some {
        let rest = list_rest(fs);
        lemma_any_filter(g, s, rest, ctx);
        lemma_first_and_rest(fs);
        let items = fs@;
        let tail = rest@;
        if exists|j: int| 0 <= j < tail.len() && subject_matches(g, s, #[trigger] tail[j], ctx) {
            let j = choose|j: int|
                0 <= j < tail.len() && subject_matches(g, s, #[trigger] tail[j], ctx);
            assert(items[j + 1] == tail[j]);
        }
    }
}

proof fn lemma_all_filters(g: Game, s: Subject, fs: List<TargetFilter>, ctx: FilterContext)
    ensures
        all_filters_match(g, s, fs, ctx) <==> forall|i: int|
            0 <= i < fs@.len() ==> subject_matches(g, s, #[trigger] fs@[i], ctx),
    decreases fs,
{
    if fs.node is Some {
        let rest = list_rest(fs);
        lemma_all_filters(g, s, rest, ctx);
        lemma_first_and_rest(fs);
        let items = fs@;
        let tail = rest@;
        if exists|j: int| 0 <= j < tail.len() && !(subject_matches(g, s, #[trigger] tail[j], ctx)) {
            let j = choose|j: int|
                0 <= j < tail.len() && !(subject_matches(g, s, #[trigger] tail[j], ctx));
            assert(items[j + 1] == tail[j]);
        }
    }
}

proof fn lemma_any_player(p: PlayerId, fs: List<TargetFilter>, ctx: FilterContext)
    ensures
        any_player_filter(p, fs, ctx) <==> exists|i: int|
            0 <= i < fs@.len() && player_matches(p, #[trigger] fs@[i], ctx),
    decreases fs,
{
    if fs.node is Some {
        let rest = list_rest(fs);
        lemma_any_player(p, rest, ctx);
        lemma_first_and_rest(fs);
        let items = fs@;
        let tail = rest@;
        if exists|j: int| 0 <= j < tail.len() && player_matches(p, #[trigger] tail[j], ctx) {
            let j = choose|j: int|
                0 <= j < tail.len() && player_matches(p, #[trigger] tail[j], ctx);
            assert(items[j + 1] == tail[j]);
        }
    }
}

proof fn lemma_all_players(p: PlayerId, fs: List<TargetFilter>, ctx: FilterContext)
    ensures
        all_player_filters(p, fs, ctx) <==> forall|i: int|
            0 <= i < fs@.len() ==> player_matches(p, #[trigger] fs@[i], ctx),
    decreases fs,
{
    if fs.node is Some {
        let rest = list_rest(fs);
        lemma_all_players(p, rest, ctx);
        lemma_first_and_rest(fs);
        let items = fs@;
        let tail = rest@;
        if exists|j: int| 0 <= j < tail.len() && !(player_matches(p, #[trigger] tail[j], ctx)) {
            let j = choose|j: int|
                0 <= j < tail.len() && !(player_matches(p, #[trigger] tail[j], ctx));
            assert(items[j + 1] == tail[j]);
        }
    }
}

proof fn lemma_attachments(
    g: Game,
    fs: List<ObjectId>,
    kind: AttachmentKind,
    controller: Option<ControllerRef>,
    ctx: FilterContext,
)
    ensures
        has_attachment(g, fs, kind, controller, ctx) <==> exists|i: int|
            0 <= i < fs@.len() && is_attached(g, #[trigger] fs@[i], kind, controller, ctx),
    decreases fs,
{
    if fs.node is Some {
        let rest = list_rest(fs);
        lemma_attachments(g, rest, kind, controller, ctx);
        lemma_first_and_rest(fs);
        lemma_reads(g.objects[fs@[0]].card_types.subtypes, attachment_subtype(kind)@);
        let items = fs@;
        let tail = rest@;
        if exists|j: int|
            0 <= j < tail.len() && is_attached(g, #[trigger] tail[j], kind, controller, ctx) {
            let j = choose|j: int|
                0 <= j < tail.len() && is_attached(g, #[trigger] tail[j], kind, controller, ctx);
            assert(items[j + 1] == tail[j]);
        }
    }
}

/// Whether an attachment is an Aura or an Equipment, as asked, of the controller asked for.
pub open spec fn is_attached(
    g: Game,
    id: ObjectId,
    kind: AttachmentKind,
    controller: Option<ControllerRef>,
    ctx: FilterContext,
) -> bool {
    &&& g.objects.contains_key(id)
    &&& exists|i: int|
        0 <= i < g.objects[id].card_types.subtypes@.len() && (
        #[trigger] g.objects[id].card_types.subtypes@[i])@ == (match kind {
            AttachmentKind::Aura => "Aura"@,
            AttachmentKind::Equipment => "Equipment"@,
        })
    &&& controller is Some ==> stands(g.objects[id].controller, controller->0, ctx.controller)
}

/// Whether a player is the one asking, an opponent of the one asking, or anyone, as asked.
pub open spec fn stands(
    player: PlayerId,
    reference: ControllerRef,
    asking: Option<PlayerId>,
) -> bool {
    match reference {
        ControllerRef::You => asking is Some && asking->0 == player,
        ControllerRef::Opponent => asking is Some && asking->0 != player,
        ControllerRef::Any => true,
    }
}

/// An object is let through by its card types and subtypes, as they are now (CR 205).
pub proof fn law_types(o: GameObject, text: Text, inner: Rc<TypeFilter>, options: List<TypeFilter>)
    ensures
        ({
            let s = live_subject(o);
            let types = o.card_types.core_types@;
            &&& type_matches(s, TypeFilter::Artifact) <==> types.contains(CoreType::Artifact)
            &&& type_matches(s, TypeFilter::Battle) <==> types.contains(CoreType::Battle)
            &&& type_matches(s, TypeFilter::Creature) <==> types.contains(CoreType::Creature)
            &&& type_matches(s, TypeFilter::Enchantment) <==> types.contains(CoreType::Enchantment)
            &&& type_matches(s, TypeFilter::Instant) <==> types.contains(CoreType::Instant)
            &&& type_matches(s, TypeFilter::Land) <==> types.contains(CoreType::Land)
            &&& type_matches(s, TypeFilter::Planeswalker) <==> types.contains(
                CoreType::Planeswalker,
            )
            &&& type_matches(s, TypeFilter::Sorcery) <==> types.contains(CoreType::Sorcery)
            &&& type_matches(s, TypeFilter::Card)
            &&& type_matches(s, TypeFilter::Permanent) <==> exists|i: int|
                0 <= i < types.len() && #[trigger] types[i] != CoreType::Instant && types[i]
                    != CoreType::Sorcery && types[i] != CoreType::Kindred
            &&& type_matches(s, TypeFilter::Subtype(text)) <==> exists|i: int|
                0 <= i < o.card_types.subtypes@.len() && (
                #[trigger] o.card_types.subtypes@[i])@ == text@
            &&& type_matches(s, TypeFilter::Non(inner)) <==> !type_matches(s, *inner)
            &&& type_matches(s, TypeFilter::AnyOf(options)) <==> exists|i: int|
                0 <= i < options@.len() && type_matches(s, #[trigger] options@[i])
        }),
{
    let s = live_subject(o);
    let types = o.card_types.core_types@;
    lemma_reads(o.card_types.subtypes, text@);
    lemma_any_type(s, options);
    if exists|i: int|
        0 <= i < types.len() && #[trigger] types[i] != CoreType::Instant && types[i]
            != CoreType::Sorcery && types[i] != CoreType::Kindred {
        let i = choose|i: int|
            0 <= i < types.len() && #[trigger] types[i] != CoreType::Instant && types[i]
                != CoreType::Sorcery && types[i] != CoreType::Kindred;
        assert(types.contains(types[i]));
    }
}

/// A typed filter lets an object through exactly if each of its types does, the object's
/// controller stands to the asking player as it says, and each of its properties holds.
pub proof fn law_typed(g: Game, id: ObjectId, f: TypedFilter, ctx: FilterContext)
    requires
        g.objects.contains_key(id),
    ensures
        ({
            let s = live_subject(g.objects[id]);
            object_matches(g, id, TargetFilter::Typed(f), ctx) <==> (forall|i: int|
                0 <= i < f.type_filters@.len() ==> type_matches(s, #[trigger] f.type_filters@[i]))
                && (f.controller is Some ==> stands(
                g.objects[id].controller,
                f.controller->0,
                ctx.controller,
            )) && (forall|i: int|
                0 <= i < f.properties@.len() ==> property_holds(
                    g,
                    s,
                    #[trigger] f.properties@[i],
                    ctx,
                ))
        }),
{
    let s = live_subject(g.objects[id]);
    lemma_all_types(s, f.type_filters);
    lemma_properties(g, s, f.properties, ctx);
}

/// What each property of a filter asks of an object, as it is now.
pub proof fn law_properties(
    g: Game,
    o: GameObject,
    controller: ControllerRef,
    zone: Zone,
    kind: KeywordKind,
    ctx: FilterContext,
)
    ensures
        ({
            let s = live_subject(o);
            &&& property_holds(g, s, FilterProp::Another, ctx) <==> o.id != ctx.source_id
            &&& property_holds(g, s, FilterProp::OtherThanTriggerObject, ctx) <==> !(
            ctx.trigger_object is Some && ctx.trigger_object->0 == o.id)
            &&& property_holds(g, s, FilterProp::Owned { controller }, ctx) <==> stands(
                o.owner,
                controller,
                ctx.controller,
            )
            &&& property_holds(g, s, FilterProp::InZone { zone }, ctx) <==> o.zone == zone
            &&& property_holds(g, s, FilterProp::HasAnyCounter, ctx) <==> o.counters.total() > 0
            &&& property_holds(g, s, FilterProp::WithKeyword { value: kind }, ctx) <==> exists|
                i: int,
            |
                0 <= i < o.keywords@.len() && (#[trigger] o.keywords@[i]).kind_spec() == kind
            &&& property_holds(g, s, FilterProp::Token, ctx) <==> o.is_token
            &&& property_holds(g, s, FilterProp::IsCommander, ctx) <==> o.is_commander
            &&& !property_holds(g, s, FilterProp::HasXInManaCost, ctx)
            &&& property_holds(g, s, FilterProp::EnteredThisTurn, ctx) <==> (
            o.entered_battlefield_turn is Some && o.entered_battlefield_turn->0 == g.turn_number)
        }),
{
    lemma_kinds(o.keywords);
    let kinds = keyword_kinds(o.keywords)@;
    if kinds.contains(kind) {
        let i = choose|i: int| 0 <= i < kinds.len() && kinds[i] == kind;
        assert(o.keywords@[i].kind_spec() == kind);
    }
    if exists|i: int| 0 <= i < o.keywords@.len() && (#[trigger] o.keywords@[i]).kind_spec() == kind {
        let i = choose|i: int|
            0 <= i < o.keywords@.len() && (#[trigger] o.keywords@[i]).kind_spec() == kind;
        assert(kinds[i] == kind);
    }
}

proof fn lemma_kinds(keywords: List<Keyword>)
    ensures
        keyword_kinds(keywords)@.len() == keywords@.len(),
        forall|i: int|
            0 <= i < keywords@.len() ==> #[trigger] keyword_kinds(keywords)@[i]
                == keywords@[i].kind_spec(),
    decreases keywords,
{
    if keywords.node is Some {
        lemma_kinds(list_rest(keywords));
        lemma_first_and_rest(keywords);
        let kinds = keyword_kinds(keywords);
        assert(list_rest(kinds) == keyword_kinds(list_rest(keywords)));
        lemma_first_and_rest(kinds);
    }
}

/// An object has an attachment exactly if one of those on it is of the kind and the controller
/// asked for.
pub proof fn law_attachments(
    g: Game,
    o: GameObject,
    kind: AttachmentKind,
    controller: Option<ControllerRef>,
    ctx: FilterContext,
)
    ensures
        property_holds(g, live_subject(o), FilterProp::HasAttachment { kind, controller }, ctx)
            <==> exists|i: int|
            0 <= i < o.attachments@.len() && is_attached(
                g,
                #[trigger] o.attachments@[i],
                kind,
                controller,
                ctx,
            ),
{
    lemma_attachments(g, o.attachments, kind, controller, ctx);
}

/// Whether an object has a card type, or the name, of the object under an identifier.
pub open spec fn alike(g: Game, o: GameObject, quality: SharedQuality, id: ObjectId) -> bool {
    &&& g.objects.contains_key(id)
    &&& match quality {
        SharedQuality::CardType => exists|i: int|
            0 <= i < o.card_types.core_types@.len()
                && g.objects[id].card_types.core_types@.contains(
                #[trigger] o.card_types.core_types@[i],
            ),
        SharedQuality::Name => o.name@ == g.objects[id].name@,
    }
}

/// A shared quality is asked for with the object named, or else with the asking source; and the
/// two ways of asking are each other's opposite.
pub proof fn law_shared_quality(
    g: Game,
    o: GameObject,
    quality: SharedQuality,
    id: ObjectId,
    reference: Option<Rc<TargetFilter>>,
    ctx: FilterContext,
)
    ensures
        ({
            let s = live_subject(o);
            let shares = FilterProp::SharesQuality {
                quality,
                reference,
                relation: SharedQualityRelation::Shares,
            };
            let differs = FilterProp::SharesQuality {
                quality,
                reference,
                relation: SharedQualityRelation::DoesNotShare,
            };
            &&& property_holds(g, s, shares, ctx) <==> !property_holds(g, s, differs, ctx)
            &&& reference is None ==> (property_holds(g, s, shares, ctx) <==> alike(
                g,
                o,
                quality,
                ctx.source_id,
            ))
            &&& reference == Some(Rc::new(TargetFilter::SpecificObject { id })) ==> (
            property_holds(g, s, shares, ctx) <==> alike(g, o, quality, id))
            &&& property_holds(g, s, FilterProp::SameName, ctx) <==> alike(
                g,
                o,
                SharedQuality::Name,
                ctx.source_id,
            )
        }),
{
    if g.objects.contains_key(ctx.source_id) {
        lemma_types_meet(
            o.card_types.core_types,
            g.objects[ctx.source_id].card_types.core_types@,
        );
    }
    if g.objects.contains_key(id) {
        lemma_types_meet(o.card_types.core_types, g.objects[id].card_types.core_types@);
    }
}

/// What each filter that is not typed lets through of the objects there are.
pub proof fn law_filters(
    g: Game,
    id: ObjectId,
    other: ObjectId,
    set: TrackedSetId,
    inner: Rc<TargetFilter>,
    filters: List<TargetFilter>,
    ctx: FilterContext,
)
    requires
        g.objects.contains_key(id),
        g.objects[id].id == id,
    ensures
        ({
            let source = g.objects[ctx.source_id];
            let known = g.objects.contains_key(ctx.source_id);
            &&& object_matches(g, id, TargetFilter::Any, ctx)
            &&& object_matches(g, id, TargetFilter::SelfRef, ctx) <==> id == ctx.source_id
            &&& object_matches(g, id, TargetFilter::SpecificObject { id: other }, ctx) <==> id
                == other
            &&& object_matches(g, id, TargetFilter::Not { filter: inner }, ctx)
                <==> !object_matches(g, id, *inner, ctx)
            &&& object_matches(g, id, TargetFilter::Or { filters }, ctx) <==> exists|i: int|
                0 <= i < filters@.len() && object_matches(g, id, #[trigger] filters@[i], ctx)
            &&& object_matches(g, id, TargetFilter::And { filters }, ctx) <==> forall|i: int|
                0 <= i < filters@.len() ==> object_matches(g, id, #[trigger] filters@[i], ctx)
            &&& object_matches(g, id, TargetFilter::AttachedTo, ctx) <==> known
                && source.attached_to == Some(AttachTarget::Object(id))
            &&& object_matches(g, id, TargetFilter::TrackedSet { id: set }, ctx)
                <==> g.tracked_object_sets.contains_key(set)
                && g.tracked_object_sets[set]@.contains(id)
            &&& object_matches(g, id, TargetFilter::ExiledBySource, ctx)
                <==> g.exile_links.contains((ctx.source_id, id))
            &&& object_matches(g, id, TargetFilter::SourceOrPaired, ctx) <==> id == ctx.source_id
                || (known && source.paired_with == Some(id))
            &&& !object_matches(g, id, TargetFilter::Nothing, ctx)
            &&& !object_matches(g, id, TargetFilter::Player, ctx)
            &&& !object_matches(g, id, TargetFilter::Controller, ctx)
            &&& !object_matches(g, id, TargetFilter::ScopedPlayer, ctx)
            &&& !object_matches(g, id, TargetFilter::TriggeringPlayer, ctx)
            &&& !object_matches(g, id, TargetFilter::TriggeringSpellController, ctx)
            &&& !object_matches(g, id, TargetFilter::TriggeringSpellOwner, ctx)
        }),
{
    let s = live_subject(g.objects[id]);
    lemma_any_filter(g, s, filters, ctx);
    lemma_all_filters(g, s, filters, ctx);
    if exists|i: int| 0 <= i < filters@.len() && subject_matches(g, s, #[trigger] filters@[i], ctx) {
        let i = choose|i: int|
            0 <= i < filters@.len() && subject_matches(g, s, #[trigger] filters@[i], ctx);
        assert(object_matches(g, id, filters@[i], ctx));
    }
    assert(forall|i: int|
        0 <= i < filters@.len() ==> object_matches(g, id, #[trigger] filters@[i], ctx)
            == subject_matches(g, s, filters@[i], ctx));
}

/// No filter lets an object through that there is not.
pub proof fn law_no_such_object(g: Game, id: ObjectId, f: TargetFilter, ctx: FilterContext)
    requires
        !g.objects.contains_key(id),
    ensures
        !object_matches(g, id, f, ctx),
{
}

/// What each filter lets through of players.
pub proof fn law_player_filters(
    p: PlayerId,
    typed: TypedFilter,
    id: ObjectId,
    inner: Rc<TargetFilter>,
    filters: List<TargetFilter>,
    ctx: FilterContext,
)
    ensures
        player_matches(p, TargetFilter::Any, ctx),
        player_matches(p, TargetFilter::Player, ctx),
        player_matches(p, TargetFilter::Controller, ctx) <==> ctx.controller is Some
            && ctx.controller->0 == p,
        player_matches(p, TargetFilter::Typed(typed), ctx) <==> typed.type_filters@.len() == 0
            && typed.properties@.len() == 0 && typed.controller is Some && stands(
            p,
            typed.controller->0,
            ctx.controller,
        ),
        player_matches(p, TargetFilter::Not { filter: inner }, ctx) <==> !player_matches(
            p,
            *inner,
            ctx,
        ),
        player_matches(p, TargetFilter::Or { filters }, ctx) <==> exists|i: int|
            0 <= i < filters@.len() && player_matches(p, #[trigger] filters@[i], ctx),
        player_matches(p, TargetFilter::And { filters }, ctx) <==> forall|i: int|
            0 <= i < filters@.len() ==> player_matches(p, #[trigger] filters@[i], ctx),
        !player_matches(p, TargetFilter::Nothing, ctx),
        !player_matches(p, TargetFilter::SelfRef, ctx),
        !player_matches(p, TargetFilter::SpecificObject { id }, ctx),
{
    lemma_any_player(p, filters, ctx);
    lemma_all_players(p, filters, ctx);
}

/// An object that moved is looked at as it is, where it came to the battlefield and is there; else
/// as it was when it moved, on the zones that it went between (CR 603.10).
pub proof fn law_moves(
    g: Game,
    id: ObjectId,
    from: Option<Zone>,
    to: Zone,
    record: Rc<ZoneChangeRecord>,
    origin: Option<Zone>,
    destination: Zone,
    f: TargetFilter,
    ctx: FilterContext,
)
    ensures
        ({
            let event = GameEvent::ZoneChanged { object_id: id, from, to, record };
            let there = g.objects.contains_key(id) && g.objects[id].zone == Zone::Battlefield;
            let matched = move_matches(g, event, origin, destination, f, ctx);
            let zones = (origin is Some ==> from == origin) && to == destination;
            &&& to == Zone::Battlefield && there ==> (matched <==> zones && object_matches(
                g,
                id,
                f,
                ctx,
            ))
            &&& !(to == Zone::Battlefield && there) ==> (matched <==> zones && subject_matches(
                g,
                record_subject(g, *record),
                f,
                ctx,
            ))
        }),
{
}

/// What was recorded of an object that moved is what a filter sees of it.
pub proof fn law_recorded(
    g: Game,
    r: ZoneChangeRecord,
    controller: ControllerRef,
    kind: KeywordKind,
    ctx: FilterContext,
)
    ensures
        ({
            let s = record_subject(g, r);
            &&& type_matches(s, TypeFilter::Creature) <==> r.core_types@.contains(
                CoreType::Creature,
            )
            &&& type_matches(s, TypeFilter::Land) <==> r.core_types@.contains(CoreType::Land)
            &&& subject_matches(g, s, TargetFilter::SelfRef, ctx) <==> r.object_id
                == ctx.source_id
            &&& property_holds(g, s, FilterProp::Another, ctx) <==> r.object_id != ctx.source_id
            &&& property_holds(g, s, FilterProp::Owned { controller }, ctx) <==> stands(
                r.owner,
                controller,
                ctx.controller,
            )
            &&& property_holds(g, s, FilterProp::Token, ctx) <==> r.is_token
            &&& property_holds(g, s, FilterProp::IsCommander, ctx) <==> r.is_commander
            &&& property_holds(g, s, FilterProp::WithKeyword { value: kind }, ctx)
                <==> r.keywords@.contains(kind)
            &&& property_holds(g, s, FilterProp::InZone { zone: r.to_zone }, ctx)
            &&& property_holds(g, s, FilterProp::HasAnyCounter, ctx)
                <==> g.lki_cache.contains_key(r.object_id)
                && g.lki_cache[r.object_id].counters.total() > 0
            &&& s.controller == r.controller
            &&& s.subtypes == r.subtypes
            &&& s.name == r.name
        }),
{
}

/// A spell that was cast is looked at with the types that it had then, as its caster's.
pub proof fn law_cast(g: Game, r: SpellCastRecord, caster: PlayerId, f: TypedFilter)
    requires
        f.properties@.len() == 0,
    ensures
        cast_matches(g, r, TargetFilter::Typed(f), caster) <==> (forall|i: int|
            0 <= i < f.type_filters@.len() ==> type_matches(
                cast_subject(r, caster),
                #[trigger] f.type_filters@[i],
            )) && (f.controller is Some ==> f.controller->0 != ControllerRef::Opponent),
        type_matches(cast_subject(r, caster), TypeFilter::Creature)
            <==> r.core_types@.contains(CoreType::Creature),
        type_matches(cast_subject(r, caster), TypeFilter::Instant)
            <==> r.core_types@.contains(CoreType::Instant),
        type_matches(cast_subject(r, caster), TypeFilter::Sorcery)
            <==> r.core_types@.contains(CoreType::Sorcery),
{
    let s = cast_subject(r, caster);
    let ctx = FilterContext {
        source_id: ObjectId(0),
        controller: Some(caster),
        trigger_object: None,
    };
    lemma_all_types(s, f.type_filters);
    lemma_properties(g, s, f.properties, ctx);
}

} // verus!
