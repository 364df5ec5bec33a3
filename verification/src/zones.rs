//! Zones, and the objects that move between them (CR 400).

use crate::effects::ring::{bearer_cleared, clear_ring_bearer_if_object};
use crate::events::{keyword_kinds, kinds_of, GameEvent, ZoneChangeRecord};
use crate::ids::{CardId, ObjectId, PlayerId, Zone};
use crate::list::{list_of, List, Node};
use crate::object::{fresh_object, GameObject, LkiSnapshot, Player};
use crate::state::{bump, next_number, same_seats, Game, GameState, StackEntry};
use crate::text::Text;
use std::rc::Rc;
use vstd::prelude::*;

verus! {

/// The first `n` identifiers without those that are `id`.
pub open spec fn ids_without(ids: Seq<ObjectId>, id: ObjectId, n: nat) -> Seq<ObjectId>
    decreases n,
{
    if n == 0 {
        seq![]
    } else {
        let before = ids_without(ids, id, (n - 1) as nat);
        if ids[n - 1] == id {
            before
        } else {
            before.push(ids[n - 1])
        }
    }
}

/// What is left holds everything but `id`.
pub proof fn lemma_ids_without(ids: Seq<ObjectId>, id: ObjectId, n: nat)
    requires
        n <= ids.len(),
    ensures
        ids_without(ids, id, n).len() <= n,
        !ids_without(ids, id, n).contains(id),
        forall|other: ObjectId|
            other != id ==> (#[trigger] ids_without(ids, id, n).contains(other) <==> ids.take(
                n as int,
            ).contains(other)),
        ids.take(n as int).contains(id) ==> ids_without(ids, id, n).len() < n,
    decreases n,
{
    if n > 0 {
        lemma_ids_without(ids, id, (n - 1) as nat);
        let before = ids_without(ids, id, (n - 1) as nat);
        let after = ids_without(ids, id, n);
        let last = ids[n - 1];
        let prior = ids.take(n - 1);
        assert(ids.take(n as int) =~= prior.push(last));
        assert forall|other: ObjectId| #[trigger]
            prior.push(last).contains(other) <==> prior.contains(other) || other == last by {
            if prior.contains(other) {
                let k = choose|k: int| 0 <= k < prior.len() && prior[k] == other;
                assert(prior.push(last)[k] == other);
            }
            if other == last {
                assert(prior.push(last)[n - 1] == other);
            }
        }
        assert(after == if last == id {
            before
        } else {
            before.push(last)
        });
        assert forall|other: ObjectId| #[trigger]
            before.push(last).contains(other) <==> before.contains(other) || other == last by {
            if before.contains(other) {
                let k = choose|k: int| 0 <= k < before.len() && before[k] == other;
                assert(before.push(last)[k] == other);
            }
            if other == last {
                assert(before.push(last)[before.len() as int] == other);
            }
        }
    }
}

fn remove_id(ids: &mut Vec<ObjectId>, id: ObjectId)
    ensures
        final(ids)@ == ids_without(old(ids)@, id, old(ids)@.len()),
{
    let mut out: Vec<ObjectId> = Vec::new();
    let mut i: usize = 0;
    while i < ids.len()
        invariant
            i <= ids@.len(),
            ids@ == old(ids)@,
            out@ == ids_without(ids@, id, i as nat),
        decreases ids@.len() - i,
    {
        if ids[i] != id {
            out.push(ids[i]);
        }
        i = i + 1;
    }
    *ids = out;
}

/// A list without the items that are `id`.
pub open spec fn list_without(ids: List<ObjectId>, id: ObjectId) -> List<ObjectId>
    decreases ids,
{
    match ids.node {
        None => ids,
        Some(n) => if *n.item == id {
            list_without(n.rest, id)
        } else {
            List { node: Some(Rc::new(Node { item: n.item, rest: list_without(n.rest, id) })) }
        },
    }
}

fn remove_from_list(ids: &List<ObjectId>, id: ObjectId) -> (r: List<ObjectId>)
    ensures
        r == list_without(*ids, id),
    decreases ids,
{
    match &ids.node {
        None => List { node: None },
        Some(n) => if *n.item == id {
            remove_from_list(&n.rest, id)
        } else {
            List {
                node: Some(
                    Rc::new(Node { item: n.item.clone(), rest: remove_from_list(&n.rest, id) }),
                ),
            }
        },
    }
}

/// The lowest `n` entries of the stack without those under the identifier `id`.
pub open spec fn entries_without(stack: Seq<StackEntry>, id: ObjectId, n: nat) -> Seq<StackEntry>
    decreases n,
{
    if n == 0 {
        seq![]
    } else {
        let before = entries_without(stack, id, (n - 1) as nat);
        if stack[n - 1].id == id {
            before
        } else {
            before.push(stack[n - 1])
        }
    }
}

fn remove_entries(stack: &mut Vec<StackEntry>, id: ObjectId)
    ensures
        final(stack)@ == entries_without(old(stack)@, id, old(stack)@.len()),
{
    let ghost all = stack@;
    let mut kept: Vec<StackEntry> = Vec::new();
    let total: usize = stack.len();
    let mut i: usize = 0;
    while i < total
        invariant
            i <= total,
            total == all.len(),
            stack@ == all.skip(i as int),
            kept@ == entries_without(all, id, i as nat),
        decreases total - i,
    {
        let entry = stack.remove(0);
        assert(entry == all[i as int]);
        assert(stack@ =~= all.skip(i + 1));
        if entry.id != id {
            kept.push(entry);
        }
        i = i + 1;
    }
    *stack = kept;
}

/// A player's cards with those of one zone replaced.
pub open spec fn cards_in(p: Player, zone: Zone) -> List<ObjectId> {
    match zone {
        Zone::Hand => p.hand,
        Zone::Library => p.library,
        _ => p.graveyard,
    }
}

pub open spec fn with_cards(p: Player, zone: Zone, cards: List<ObjectId>) -> Player {
    match zone {
        Zone::Hand => Player { hand: cards, ..p },
        Zone::Library => Player { library: cards, ..p },
        _ => Player { graveyard: cards, ..p },
    }
}

/// The game with an object taken out of a zone. Hands, libraries and graveyards are the owner's.
#[verifier::opaque]
pub open spec fn taken_out(g: Game, id: ObjectId, owner: PlayerId, zone: Zone) -> Game {
    match zone {
        Zone::Battlefield => Game {
            battlefield: ids_without(g.battlefield, id, g.battlefield.len()),
            ..g
        },
        Zone::Exile => Game { exile: ids_without(g.exile, id, g.exile.len()), ..g },
        Zone::Command => Game {
            command_zone: ids_without(g.command_zone, id, g.command_zone.len()),
            ..g
        },
        Zone::Stack => Game { stack: entries_without(g.stack, id, g.stack.len()), ..g },
        Zone::Hand | Zone::Library | Zone::Graveyard => match g.player(owner) {
            None => g,
            Some(p) => g.set_player(
                owner,
                with_cards(p, zone, list_without(cards_in(p, zone), id)),
            ),
        },
    }
}

/// The game with an object put into a zone, as the last one there. What goes on the stack is put
/// there by whoever casts it.
#[verifier::opaque]
pub open spec fn put_in(g: Game, id: ObjectId, owner: PlayerId, zone: Zone) -> Game {
    match zone {
        Zone::Battlefield => Game { battlefield: g.battlefield.push(id), ..g },
        Zone::Exile => Game { exile: g.exile.push(id), ..g },
        Zone::Command => Game { command_zone: g.command_zone.push(id), ..g },
        Zone::Stack => g,
        Zone::Hand | Zone::Library | Zone::Graveyard => match g.player(owner) {
            None => g,
            Some(p) => g.set_player(
                owner,
                with_cards(p, zone, list_of(cards_in(p, zone)@.push(id))),
            ),
        },
    }
}

fn take_out(state: &mut GameState, id: ObjectId, owner: PlayerId, zone: Zone)
    ensures
        final(state)@ == taken_out(old(state)@, id, owner, zone),
{
    proof {
        reveal(taken_out);
    }
    match zone {
        Zone::Battlefield => {
            remove_id(&mut state.battlefield, id);
        },
        Zone::Exile => {
            remove_id(&mut state.exile, id);
        },
        Zone::Command => {
            remove_id(&mut state.command_zone, id);
        },
        Zone::Stack => {
            remove_entries(&mut state.stack, id);
        },
        Zone::Hand => {
            let seat: usize = state.find_seat(owner);
            if seat < state.players.len() {
                let cards = remove_from_list(&state.players[seat].hand, id);
                state.players[seat].hand = cards;
            }
        },
        Zone::Library => {
            let seat: usize = state.find_seat(owner);
            if seat < state.players.len() {
                let cards = remove_from_list(&state.players[seat].library, id);
                state.players[seat].library = cards;
            }
        },
        Zone::Graveyard => {
            let seat: usize = state.find_seat(owner);
            if seat < state.players.len() {
                let cards = remove_from_list(&state.players[seat].graveyard, id);
                state.players[seat].graveyard = cards;
            }
        },
    }
}

fn put_into(state: &mut GameState, id: ObjectId, owner: PlayerId, zone: Zone)
    ensures
        final(state)@ == put_in(old(state)@, id, owner, zone),
{
    proof {
        reveal(put_in);
    }
    match zone {
        Zone::Battlefield => {
            state.battlefield.push(id);
        },
        Zone::Exile => {
            state.exile.push(id);
        },
        Zone::Command => {
            state.command_zone.push(id);
        },
        Zone::Stack => {},
        Zone::Hand => {
            let seat: usize = state.find_seat(owner);
            if seat < state.players.len() {
                let cards = state.players[seat].hand.with(id);
                state.players[seat].hand = cards;
            }
        },
        Zone::Library => {
            let seat: usize = state.find_seat(owner);
            if seat < state.players.len() {
                let cards = state.players[seat].library.with(id);
                state.players[seat].library = cards;
            }
        },
        Zone::Graveyard => {
            let seat: usize = state.find_seat(owner);
            if seat < state.players.len() {
                let cards = state.players[seat].graveyard.with(id);
                state.players[seat].graveyard = cards;
            }
        },
    }
}

/// What neither taking something out of a zone nor putting it into one touches.
pub open spec fn same_besides(a: Game, b: Game) -> bool {
    &&& same_seats(a, b)
    &&& a.format_config == b.format_config
    &&& a.active_player == b.active_player
    &&& a.monarch == b.monarch
    &&& a.initiative == b.initiative
    &&& a.waiting_for == b.waiting_for
    &&& a.combat == b.combat
}

proof fn lemma_taken_out(g: Game, id: ObjectId, owner: PlayerId, zone: Zone)
    ensures
        same_besides(g, taken_out(g, id, owner, zone)),
        taken_out(g, id, owner, zone).battlefield == (if zone == Zone::Battlefield {
            ids_without(g.battlefield, id, g.battlefield.len())
        } else {
            g.battlefield
        }),
        taken_out(g, id, owner, zone).stack == (if zone == Zone::Stack {
            entries_without(g.stack, id, g.stack.len())
        } else {
            g.stack
        }),
{
    reveal(taken_out);
}

proof fn lemma_put_in(g: Game, id: ObjectId, owner: PlayerId, zone: Zone)
    ensures
        same_besides(g, put_in(g, id, owner, zone)),
        put_in(g, id, owner, zone).battlefield == (if zone == Zone::Battlefield {
            g.battlefield.push(id)
        } else {
            g.battlefield
        }),
        put_in(g, id, owner, zone).stack == g.stack,
{
    reveal(put_in);
}

proof fn lemma_departed(g: Game, id: ObjectId, o: GameObject)
    ensures
        same_besides(g, departed(g, id, o)),
        departed(g, id, o).battlefield == g.battlefield,
        departed(g, id, o).stack == g.stack,
{
    reveal(bearer_cleared);
}

/// Moving something between zones changes no object.
proof fn lemma_objects_stay(g: Game, id: ObjectId, owner: PlayerId, zone: Zone)
    ensures
        taken_out(g, id, owner, zone).objects == g.objects,
        put_in(g, id, owner, zone).objects == g.objects,
        bearer_cleared(g, id).objects == g.objects,
{
    reveal(taken_out);
    reveal(put_in);
    reveal(bearer_cleared);
}

/// The game with a new object in a zone.
pub open spec fn object_created(
    g: Game,
    card_id: CardId,
    owner: PlayerId,
    name: Text,
    zone: Zone,
) -> Game {
    let id = ObjectId(g.next_object_id);
    put_in(
        Game {
            objects: g.objects.insert(id, fresh_object(id, card_id, owner, name, zone)),
            next_object_id: next_number(g.next_object_id),
            ..g
        },
        id,
        owner,
        zone,
    )
}

pub fn create_object(
    state: &mut GameState,
    card_id: CardId,
    owner: PlayerId,
    name: Text,
    zone: Zone,
) -> (r: ObjectId)
    ensures
        r == ObjectId(old(state)@.next_object_id),
        final(state)@ == object_created(old(state)@, card_id, owner, name, zone),
{
    let id = ObjectId(state.next_object_id);
    state.next_object_id = bump(state.next_object_id);
    state.objects.insert(id, GameObject::new(id, card_id, owner, name, zone));
    put_into(state, id, owner, zone);
    id
}

/// What is recorded of an object that changes zones: what it was before.
pub open spec fn zone_record(o: GameObject, id: ObjectId, to: Zone) -> ZoneChangeRecord {
    ZoneChangeRecord {
        object_id: id,
        name: o.name,
        core_types: o.card_types.core_types,
        subtypes: o.card_types.subtypes,
        supertypes: o.card_types.supertypes,
        keywords: keyword_kinds(o.keywords),
        power: o.power,
        toughness: o.toughness,
        mana_value: o.mana_value,
        controller: o.controller,
        owner: o.owner,
        from_zone: Some(o.zone),
        to_zone: to,
        is_token: o.is_token,
        is_commander: o.is_commander,
    }
}

fn record_of(o: &GameObject, id: ObjectId, to: Zone) -> (r: ZoneChangeRecord)
    ensures
        r == zone_record(*o, id, to),
{
    ZoneChangeRecord {
        object_id: id,
        name: o.name.clone(),
        core_types: o.card_types.core_types.clone(),
        subtypes: o.card_types.subtypes.clone(),
        supertypes: o.card_types.supertypes.clone(),
        keywords: kinds_of(&o.keywords),
        power: o.power,
        toughness: o.toughness,
        mana_value: o.mana_value,
        controller: o.controller,
        owner: o.owner,
        from_zone: Some(o.zone),
        to_zone: to,
        is_token: o.is_token,
        is_commander: o.is_commander,
    }
}

pub open spec fn last_known_of(o: GameObject) -> LkiSnapshot {
    LkiSnapshot {
        name: o.name,
        power: o.power,
        toughness: o.toughness,
        mana_value: o.mana_value,
        controller: o.controller,
        owner: o.owner,
        card_types: o.card_types,
        keywords: o.keywords,
        counters: o.counters,
    }
}

fn snapshot_of(o: &GameObject) -> (r: LkiSnapshot)
    ensures
        r == last_known_of(*o),
{
    LkiSnapshot {
        name: o.name.clone(),
        power: o.power,
        toughness: o.toughness,
        mana_value: o.mana_value,
        controller: o.controller,
        owner: o.owner,
        card_types: o.card_types.clone(),
        keywords: o.keywords.clone(),
        counters: o.counters.clone(),
    }
}

/// An object in its new zone. What enters the battlefield enters this turn.
pub open spec fn relocated(o: GameObject, to: Zone, turn: u32) -> GameObject {
    GameObject {
        zone: to,
        entered_battlefield_turn: if to == Zone::Battlefield {
            Some(turn)
        } else {
            o.entered_battlefield_turn
        },
        ..o
    }
}

fn relocate(o: &mut GameObject, to: Zone, turn: u32)
    ensures
        *final(o) == relocated(*old(o), to, turn),
{
    o.entered_battlefield_turn = if to == Zone::Battlefield {
        Some(turn)
    } else {
        o.entered_battlefield_turn
    };
    o.zone = to;
}

/// The game as an object leaves the battlefield: what was last known of it is kept, and it no
/// longer bears a Ring.
pub open spec fn departed(g: Game, id: ObjectId, o: GameObject) -> Game {
    bearer_cleared(Game { lki_cache: g.lki_cache.insert(id, last_known_of(o)), ..g }, id)
}

/// The game after an object has moved to another zone. An object that is not known stays unknown.
#[verifier::opaque]
pub open spec fn moved(g: Game, id: ObjectId, to: Zone) -> Game {
    match g.object(id) {
        None => g,
        Some(o) => {
            let left = if o.zone == Zone::Battlefield {
                departed(g, id, o)
            } else {
                g
            };
            let out = taken_out(left, id, o.owner, o.zone).set_object(
                id,
                relocated(o, to, g.turn_number),
            );
            let there = put_in(out, id, o.owner, to);
            Game {
                layers_dirty: there.layers_dirty || o.zone == Zone::Battlefield || to
                    == Zone::Battlefield,
                ..there
            }
        },
    }
}

/// What a move leaves of the battlefield and of the stack, and what it does not touch.
pub proof fn lemma_moved(g: Game, id: ObjectId, to: Zone)
    ensures
        g.object(id) is None ==> moved(g, id, to) == g,
        g.object(id) matches Some(o) ==> {
            let out = if o.zone == Zone::Battlefield {
                ids_without(g.battlefield, id, g.battlefield.len())
            } else {
                g.battlefield
            };
            &&& moved(g, id, to).objects == g.objects.insert(id, relocated(o, to, g.turn_number))
            &&& moved(g, id, to).battlefield == (if to == Zone::Battlefield {
                out.push(id)
            } else {
                out
            })
            &&& moved(g, id, to).stack == (if o.zone == Zone::Stack {
                entries_without(g.stack, id, g.stack.len())
            } else {
                g.stack
            })
        },
        same_besides(g, moved(g, id, to)),
{
    reveal(moved);
    if let Some(o) = g.object(id) {
        let left = if o.zone == Zone::Battlefield {
            departed(g, id, o)
        } else {
            g
        };
        lemma_departed(g, id, o);
        let out = taken_out(left, id, o.owner, o.zone);
        lemma_taken_out(left, id, o.owner, o.zone);
        lemma_put_in(out.set_object(id, relocated(o, to, g.turn_number)), id, o.owner, to);
        lemma_objects_stay(left, id, o.owner, o.zone);
        lemma_objects_stay(
            out.set_object(id, relocated(o, to, g.turn_number)),
            id,
            o.owner,
            to,
        );
        lemma_objects_stay(
            Game { lki_cache: g.lki_cache.insert(id, last_known_of(o)), ..g },
            id,
            o.owner,
            to,
        );
    }
}

/// A permanent that leaves the battlefield is where it went and no longer among the permanents,
/// and every other object is as it was.
pub proof fn law_departure(g: Game, id: ObjectId, to: Zone)
    requires
        g.on_battlefield(id),
        to != Zone::Battlefield,
    ensures
        moved(g, id, to).object(id) is Some,
        moved(g, id, to).object(id)->0.zone == to,
        !moved(g, id, to).battlefield.contains(id),
        forall|other: ObjectId|
            other != id ==> moved(g, id, to).object(other) == #[trigger] g.object(other),
        forall|other: ObjectId|
            other != id ==> (moved(g, id, to).battlefield.contains(other)
                <==> #[trigger] g.battlefield.contains(other)),
        g.battlefield.contains(id) ==> moved(g, id, to).battlefield.len() < g.battlefield.len(),
{
    lemma_moved(g, id, to);
    lemma_ids_without(g.battlefield, id, g.battlefield.len());
    assert(g.battlefield.take(g.battlefield.len() as int) =~= g.battlefield);
}

/// The event that tells of a move, where there was one.
pub open spec fn move_events(g: Game, id: ObjectId, to: Zone) -> Seq<GameEvent> {
    match g.object(id) {
        None => seq![],
        Some(o) => seq![
            GameEvent::ZoneChanged {
                object_id: id,
                from: Some(o.zone),
                to,
                record: Rc::new(zone_record(o, id, to)),
            },
        ],
    }
}

pub fn move_to_zone(state: &mut GameState, id: ObjectId, to: Zone, events: &mut Vec<GameEvent>)
    ensures
        final(state)@ == moved(old(state)@, id, to),
        final(events)@ == old(events)@ + move_events(old(state)@, id, to),
{
    proof {
        reveal(moved);
    }
    let (owner, from, record, snapshot) = match state.objects.get(&id) {
        None => {
            assert(events@ =~= old(events)@ + move_events(old(state)@, id, to));
            return ;
        },
        Some(o) => (o.owner, o.zone, record_of(o, id, to), snapshot_of(o)),
    };
    let turn: u32 = state.turn_number;
    proof {
        let o = state@.object(id)->0;
        let known = Game { lki_cache: state@.lki_cache.insert(id, snapshot), ..state@ };
        lemma_objects_stay(known, id, owner, from);
        lemma_objects_stay(departed(state@, id, o), id, owner, from);
        lemma_objects_stay(state@, id, owner, from);
    }
    if from == Zone::Battlefield {
        state.lki_cache.insert(id, snapshot);
        clear_ring_bearer_if_object(state, id);
    }
    take_out(state, id, owner, from);
    if let Some(o) = state.objects.get_mut(&id) {
        relocate(o, to, turn);
    }
    put_into(state, id, owner, to);
    if from == Zone::Battlefield || to == Zone::Battlefield {
        state.layers_dirty = true;
    }
    events.push(
        GameEvent::ZoneChanged { object_id: id, from: Some(from), to, record: Rc::new(record) },
    );
    assert(events@ =~= old(events)@ + move_events(old(state)@, id, to));
}

} // verus!
