//! Where objects go, what is told and remembered of it, and the tokens that come about.

use crate::ability::{
    Keyword, PtValue, ReplacementDefinition, StaticDefinition, TokenRider, TriggerDefinition,
};
use crate::effects::ring::bearer_cleared;
use crate::effects::token::{
    token_count, token_created, token_kind, token_number, tokens_created, tokens_made, TokenKind,
};
use crate::events::{keyword_kinds, GameEvent};
use crate::ids::{CardId, CoreType, CounterType, ObjectId, PlayerId, Zone};
use crate::list::{lemma_items_of, list_of, list_rest, List};
use crate::mana::as_count;
use crate::quantity::quantity;
use crate::state::{lemma_first_seat, next_number, Game, Play, StackEntry};
use crate::text::Text;
use crate::zones::{
    entries_without, ids_without, lemma_moved, list_without, move_events, moved, object_created,
    put_in, relocated, taken_out,
};
use vstd::prelude::*;

verus! {

proof fn lemma_ids_filter(ids: Seq<ObjectId>, id: ObjectId, n: nat)
    requires
        n <= ids.len(),
    ensures
        ids_without(ids, id, n) == ids.take(n as int).filter(|other: ObjectId| other != id),
    decreases n,
{
    reveal(Seq::filter);
    if n > 0 {
        lemma_ids_filter(ids, id, (n - 1) as nat);
        assert(ids.take(n as int).drop_last() =~= ids.take(n - 1));
    }
}

proof fn lemma_stack_filter(stack: Seq<StackEntry>, id: ObjectId, n: nat)
    requires
        n <= stack.len(),
    ensures
        entries_without(stack, id, n) == stack.take(n as int).filter(|e: StackEntry| e.id != id),
    decreases n,
{
    reveal(Seq::filter);
    if n > 0 {
        lemma_stack_filter(stack, id, (n - 1) as nat);
        assert(stack.take(n as int).drop_last() =~= stack.take(n - 1));
    }
}

proof fn lemma_list_filter(ids: List<ObjectId>, id: ObjectId)
    ensures
        list_without(ids, id)@ == ids@.filter(|other: ObjectId| other != id),
    decreases ids,
{
    reveal(Seq::filter);
    let keep = |other: ObjectId| other != id;
    let none = Seq::<ObjectId>::empty();
    assert(none.filter(keep) =~= none);
    if ids.node is Some {
        let rest = list_rest(ids);
        lemma_list_filter(rest, id);
        let first = *ids.node->0.item;
        assert(ids@ =~= seq![first] + rest@);
        assert(seq![first].drop_last() =~= none);
        Seq::filter_distributes_over_add(seq![first], rest@, keep);
        if first != id {
            let kept = list_without(ids, id);
            assert(list_rest(kept) == list_without(rest, id));
            assert(kept@ =~= seq![first] + list_without(rest, id)@);
            assert(seq![first].filter(keep) =~= seq![first]);
        } else {
            assert(seq![first].filter(keep) =~= none);
            assert(none + rest@.filter(keep) =~= rest@.filter(keep));
        }
    } else {
        assert(ids@ =~= none);
    }
}

/// What is taken out of a shared zone is in it no more, and all else there keeps its place.
pub proof fn law_taken_out(g: Game, id: ObjectId, owner: PlayerId)
    ensures
        taken_out(g, id, owner, Zone::Battlefield) == (Game {
            battlefield: g.battlefield.filter(|other: ObjectId| other != id),
            ..g
        }),
        taken_out(g, id, owner, Zone::Exile) == (Game {
            exile: g.exile.filter(|other: ObjectId| other != id),
            ..g
        }),
        taken_out(g, id, owner, Zone::Command) == (Game {
            command_zone: g.command_zone.filter(|other: ObjectId| other != id),
            ..g
        }),
        taken_out(g, id, owner, Zone::Stack) == (Game {
            stack: g.stack.filter(|e: StackEntry| e.id != id),
            ..g
        }),
{
    reveal(taken_out);
    lemma_ids_filter(g.battlefield, id, g.battlefield.len());
    lemma_ids_filter(g.exile, id, g.exile.len());
    lemma_ids_filter(g.command_zone, id, g.command_zone.len());
    lemma_stack_filter(g.stack, id, g.stack.len());
    assert(g.battlefield.take(g.battlefield.len() as int) =~= g.battlefield);
    assert(g.exile.take(g.exile.len() as int) =~= g.exile);
    assert(g.command_zone.take(g.command_zone.len() as int) =~= g.command_zone);
    assert(g.stack.take(g.stack.len() as int) =~= g.stack);
}

/// What is put into a shared zone is the last one there.
pub proof fn law_put_in(g: Game, id: ObjectId, owner: PlayerId)
    ensures
        put_in(g, id, owner, Zone::Battlefield) == (Game {
            battlefield: g.battlefield.push(id),
            ..g
        }),
        put_in(g, id, owner, Zone::Exile) == (Game { exile: g.exile.push(id), ..g }),
        put_in(g, id, owner, Zone::Command) == (Game {
            command_zone: g.command_zone.push(id),
            ..g
        }),
        put_in(g, id, owner, Zone::Stack) == g,
{
    reveal(put_in);
}

/// Hands, libraries and graveyards are their owner's: what is put into one or taken out of one
/// changes that one alone, on the owner's seat (CR 400.3).
pub proof fn law_owners_zones(g: Game, id: ObjectId, seat: int, i: int)
    requires
        0 <= seat < g.players.len(),
        forall|k: int| 0 <= k < seat ==> (#[trigger] g.players[k]).id != g.players[seat].id,
    ensures
        ({
            let p = g.players[seat];
            let others = |other: ObjectId| other != id;
            let to_hand = put_in(g, id, p.id, Zone::Hand).players;
            let to_library = put_in(g, id, p.id, Zone::Library).players;
            let to_graveyard = put_in(g, id, p.id, Zone::Graveyard).players;
            let from_hand = taken_out(g, id, p.id, Zone::Hand).players;
            let from_library = taken_out(g, id, p.id, Zone::Library).players;
            let from_graveyard = taken_out(g, id, p.id, Zone::Graveyard).players;
            &&& to_hand[seat].hand@ == p.hand@.push(id)
            &&& to_library[seat].library@ == p.library@.push(id)
            &&& to_graveyard[seat].graveyard@ == p.graveyard@.push(id)
            &&& from_hand[seat].hand@ == p.hand@.filter(others)
            &&& from_library[seat].library@ == p.library@.filter(others)
            &&& from_graveyard[seat].graveyard@ == p.graveyard@.filter(others)
            &&& to_hand[seat].graveyard == p.graveyard && to_hand[seat].library == p.library
            &&& to_graveyard[seat].hand == p.hand && to_graveyard[seat].library == p.library
            &&& to_graveyard[seat].life == p.life && to_hand[seat].life == p.life
            &&& from_hand[seat].graveyard == p.graveyard && from_graveyard[seat].hand == p.hand
            &&& 0 <= i < g.players.len() && i != seat ==> {
                &&& to_hand[i] == g.players[i]
                &&& to_library[i] == g.players[i]
                &&& to_graveyard[i] == g.players[i]
                &&& from_hand[i] == g.players[i]
                &&& from_library[i] == g.players[i]
                &&& from_graveyard[i] == g.players[i]
            }
        }),
{
    reveal(put_in);
    reveal(taken_out);
    let p = g.players[seat];
    lemma_first_seat(g.players, p.id, 0);
    lemma_list_filter(p.hand, id);
    lemma_list_filter(p.library, id);
    lemma_list_filter(p.graveyard, id);
    lemma_items_of(p.hand@.push(id));
    lemma_items_of(p.library@.push(id));
    lemma_items_of(p.graveyard@.push(id));
}

proof fn lemma_moved_objects(g: Game, id: ObjectId, to: Zone)
    requires
        g.objects.contains_key(id),
    ensures
        moved(g, id, to).objects == g.objects.insert(
            id,
            relocated(g.objects[id], to, g.turn_number),
        ),
{
    lemma_moved(g, id, to);
}

/// An object that moves is in its new zone, and all else of it stays as it was, but for the turn
/// that it came to the battlefield. No other object changes.
pub proof fn law_moved_object(g: Game, id: ObjectId, to: Zone, other: ObjectId)
    requires
        g.objects.contains_key(id),
    ensures
        ({
            let o = g.objects[id];
            let r = moved(g, id, to);
            &&& r.objects.contains_key(id)
            &&& r.objects[id].zone == to
            &&& r.objects[id].entered_battlefield_turn == (if to == Zone::Battlefield {
                Some(g.turn_number)
            } else {
                o.entered_battlefield_turn
            })
            &&& r.objects[id].owner == o.owner && r.objects[id].controller == o.controller
            &&& r.objects[id].counters == o.counters && r.objects[id].card_types == o.card_types
        }),
        other != id ==> (moved(g, id, to).objects.contains_key(other)
            <==> g.objects.contains_key(other)),
        other != id && g.objects.contains_key(other) ==> moved(g, id, to).objects[other]
            == g.objects[other],
{
    lemma_moved_objects(g, id, to);
}

/// What was last known of a permanent is remembered as it leaves the battlefield, and only then;
/// and continuous effects are due again once the battlefield has changed (CR 400.7, CR 608.2h).
pub proof fn law_remembered(g: Game, id: ObjectId, to: Zone)
    requires
        g.objects.contains_key(id),
    ensures
        ({
            let o = g.objects[id];
            let r = moved(g, id, to);
            &&& o.zone == Zone::Battlefield ==> r.lki_cache.contains_key(id) && r.lki_cache[id].power
                == o.power && r.lki_cache[id].toughness == o.toughness && r.lki_cache[id].counters
                == o.counters && r.lki_cache[id].controller == o.controller
                && r.lki_cache[id].card_types == o.card_types && r.lki_cache[id].keywords
                == o.keywords && r.lki_cache[id].name == o.name && r.lki_cache[id].owner == o.owner
                && r.lki_cache[id].mana_value == o.mana_value
            &&& o.zone != Zone::Battlefield ==> r.lki_cache == g.lki_cache
            &&& o.zone == Zone::Battlefield || to == Zone::Battlefield ==> r.layers_dirty
            &&& o.zone != Zone::Battlefield && to != Zone::Battlefield ==> r.layers_dirty
                == g.layers_dirty
        }),
{
    reveal(moved);
    reveal(taken_out);
    reveal(put_in);
    reveal(bearer_cleared);
}

/// A move is told with both zones and with what the object was; where there is no such object,
/// nothing moves and nothing is told.
pub proof fn law_move_told(g: Game, id: ObjectId, to: Zone)
    ensures
        !g.objects.contains_key(id) ==> moved(g, id, to) == g && move_events(g, id, to).len() == 0,
        g.objects.contains_key(id) ==> {
            let o = g.objects[id];
            let told = move_events(g, id, to);
            &&& told.len() == 1
            &&& told[0] is ZoneChanged
            &&& told[0]->ZoneChanged_object_id == id
            &&& told[0]->ZoneChanged_from == Some(o.zone)
            &&& told[0]->ZoneChanged_to == to
            &&& told[0]->ZoneChanged_record.object_id == id
            &&& told[0]->ZoneChanged_record.from_zone == Some(o.zone)
            &&& told[0]->ZoneChanged_record.to_zone == to
            &&& told[0]->ZoneChanged_record.controller == o.controller
            &&& told[0]->ZoneChanged_record.owner == o.owner
            &&& told[0]->ZoneChanged_record.core_types == o.card_types.core_types
            &&& told[0]->ZoneChanged_record.subtypes == o.card_types.subtypes
            &&& told[0]->ZoneChanged_record.supertypes == o.card_types.supertypes
            &&& told[0]->ZoneChanged_record.power == o.power
            &&& told[0]->ZoneChanged_record.toughness == o.toughness
            &&& told[0]->ZoneChanged_record.is_token == o.is_token
            &&& told[0]->ZoneChanged_record.is_commander == o.is_commander
            &&& told[0]->ZoneChanged_record.name == o.name
            &&& told[0]->ZoneChanged_record.mana_value == o.mana_value
            &&& told[0]->ZoneChanged_record.keywords == keyword_kinds(o.keywords)
        },
{
    reveal(moved);
}

/// A new object is its owner's, in its zone, under a new number; it is untapped, undamaged and
/// without counters, types or abilities. No other object changes, and no number is given twice in
/// a row (CR 109.1).
pub proof fn law_created(
    g: Game,
    card_id: CardId,
    owner: PlayerId,
    name: Text,
    zone: Zone,
    other: ObjectId,
)
    ensures
        ({
            let r = object_created(g, card_id, owner, name, zone);
            let id = ObjectId(g.next_object_id);
            let o = r.objects[id];
            &&& r.objects.contains_key(id)
            &&& o.id == id && o.card_id == card_id && o.name == name
            &&& o.owner == owner && o.controller == owner && o.zone == zone
            &&& !o.tapped && !o.phased_out && !o.face_down && !o.is_token && !o.is_commander
            &&& !o.is_emblem && o.damage_marked == 0 && !o.dealt_deathtouch_damage
            &&& o.power is None && o.toughness is None && o.loyalty is None && o.mana_value == 0
            &&& o.card_types.core_types@.len() == 0 && o.keywords@.len() == 0
            &&& o.trigger_definitions@.len() == 0 && o.static_definitions@.len() == 0
            &&& o.replacement_definitions@.len() == 0 && !o.base_recorded
            &&& o.counters.total() == 0 && o.attached_to is None && o.paired_with is None
            &&& !o.assigns_no_combat_damage && !o.assigns_damage_from_toughness
                && !o.assigns_damage_as_though_unblocked
            &&& r.next_object_id != g.next_object_id
            &&& other != id ==> (r.objects.contains_key(other) <==> g.objects.contains_key(other))
            &&& zone == Zone::Battlefield ==> r.battlefield == g.battlefield.push(id)
            &&& zone != Zone::Battlefield ==> r.battlefield == g.battlefield
            &&& zone == Zone::Exile ==> r.exile == g.exile.push(id)
            &&& zone == Zone::Command ==> r.command_zone == g.command_zone.push(id)
        }),
{
    reveal(put_in);
    lemma_items_of(Seq::<CoreType>::empty());
    lemma_items_of(Seq::<Keyword>::empty());
    lemma_items_of(Seq::<TriggerDefinition>::empty());
    lemma_items_of(Seq::<StaticDefinition>::empty());
    lemma_items_of(Seq::<ReplacementDefinition>::empty());
    let none = list_of(Seq::<(CounterType, u32)>::empty());
    lemma_items_of(Seq::<(CounterType, u32)>::empty());
    assert(none.node is None);
}

/// A token comes to the battlefield under a new number, as a token of its kind, owned and
/// controlled by its creator. It is told that it came, from nowhere, and that it was created
/// (CR 111.2).
pub proof fn law_token(p: Play, kind: TokenKind, controller: PlayerId, other: ObjectId)
    ensures
        ({
            let id = ObjectId(p.game.next_object_id);
            let r = token_created(p, kind, controller);
            let o = r.game.objects[id];
            &&& r.game.objects.contains_key(id)
            &&& r.game.battlefield == p.game.battlefield.push(id)
            &&& o.is_token && o.zone == Zone::Battlefield
            &&& o.owner == controller && o.controller == controller
            &&& o.power == Some(kind.power) && o.toughness == Some(kind.toughness)
            &&& o.card_types.core_types == kind.core_types
            &&& o.card_types.subtypes == kind.subtypes
            &&& o.card_types.supertypes == kind.supertypes
            &&& o.colors == kind.colors && o.keywords == kind.keywords
            &&& o.tapped == kind.tapped && o.name == kind.name
            &&& o.entered_battlefield_turn == Some(p.game.turn_number)
            &&& o.damage_marked == 0
            &&& r.game.layers_dirty
            &&& other != id ==> (r.game.objects.contains_key(other)
                <==> p.game.objects.contains_key(other))
            &&& other != id && p.game.objects.contains_key(other) ==> r.game.objects[other]
                == p.game.objects[other]
            &&& r.game.next_object_id == next_number(p.game.next_object_id)
            &&& r.events.len() == p.events.len() + 2
            &&& r.events.take(p.events.len() as int) == p.events
            &&& r.events[p.events.len() as int] is ZoneChanged
            &&& r.events[p.events.len() as int]->ZoneChanged_object_id == id
            &&& r.events[p.events.len() as int]->ZoneChanged_from is None
            &&& r.events[p.events.len() as int]->ZoneChanged_to == Zone::Battlefield
            &&& r.events[p.events.len() as int]->ZoneChanged_record.controller == controller
            &&& r.events[p.events.len() as int]->ZoneChanged_record.core_types == kind.core_types
            &&& r.events[p.events.len() as int]->ZoneChanged_record.is_token
            &&& r.events.last() == (GameEvent::TokenCreated { object_id: id, name: kind.name })
        }),
{
    reveal(token_created);
    reveal(put_in);
    assert(token_created(p, kind, controller).events.take(p.events.len() as int) =~= p.events);
}

/// So many tokens make the battlefield so much fuller, and two events tell of each.
pub proof fn law_token_number(p: Play, kind: TokenKind, controller: PlayerId, n: nat)
    ensures
        tokens_created(p, kind, controller, n).game.battlefield.len() == p.game.battlefield.len()
            + n,
        tokens_created(p, kind, controller, n).events.len() == p.events.len() + 2 * n,
    decreases n,
{
    if n > 0 {
        law_token_number(p, kind, controller, (n - 1) as nat);
        let before = tokens_created(p, kind, controller, (n - 1) as nat);
        law_token(before, kind, controller, ObjectId(0));
    }
}

/// A rider makes as many tokens as its count says, once for each time that it repeats, each of the
/// kind that is written on it, with the power and toughness that it has as they are made.
pub proof fn law_rider_tokens(p: Play, rider: TokenRider)
    ensures
        ({
            let g = p.game;
            let kind = token_kind(g, rider);
            let count = quantity(g, rider.tokens.count, rider.controller, rider.source_id, None);
            let times = match rider.repeat_for {
                None => 1int,
                Some(expr) => quantity(g, expr, rider.controller, rider.source_id, None),
            };
            &&& tokens_made(p, rider) == tokens_created(
                p,
                kind,
                rider.controller,
                token_count(g, rider),
            )
            &&& 0 <= count <= u32::MAX && 0 <= times <= u32::MAX ==> token_count(g, rider) == count
                * times
            &&& count <= 0 || times <= 0 ==> token_count(g, rider) == 0
            &&& rider.tokens.power matches PtValue::Fixed(n) ==> kind.power == n
            &&& rider.tokens.toughness matches PtValue::Fixed(n) ==> kind.toughness == n
            &&& kind.name == rider.tokens.name
            &&& kind.core_types == rider.tokens.core_types
            &&& kind.subtypes == rider.tokens.subtypes
            &&& kind.supertypes == rider.tokens.supertypes
            &&& kind.colors == rider.tokens.colors
            &&& kind.keywords == rider.tokens.keywords
            &&& kind.tapped == rider.tokens.tapped
        }),
{
    let g = p.game;
    let count = quantity(g, rider.tokens.count, rider.controller, rider.source_id, None);
    let times = match rider.repeat_for {
        None => 1int,
        Some(expr) => quantity(g, expr, rider.controller, rider.source_id, None),
    };
    if count <= 0 {
        assert(token_count(g, rider) == 0) by (nonlinear_arith)
            requires
                token_count(g, rider) == 0 * as_count(times),
        ;
    } else if times <= 0 {
        assert(token_count(g, rider) == 0) by (nonlinear_arith)
            requires
                token_count(g, rider) == as_count(count) * 0,
        ;
    }
}

/// A number that is read off the game is written on a token as far as it fits.
pub proof fn law_token_numbers(g: Game, value: PtValue, rider: TokenRider)
    ensures
        value matches PtValue::Quantity(expr) ==> {
            let n = quantity(g, expr, rider.controller, rider.source_id, None);
            i32::MIN <= n <= i32::MAX ==> token_number(g, value, rider) == n
        },
{
}

} // verus!
