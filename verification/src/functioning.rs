//! Which abilities function: those of permanents that are phased in, and of emblems in the
//! command zone (CR 702.26b, CR 114.4).

use crate::ability::{StaticDefinition, TriggerDefinition};
use crate::ids::{ObjectId, Zone};
use crate::list::{list_of, List};
use crate::object::GameObject;
use crate::state::{Game, GameState, StackEntryKind};
use crate::triggers::conditions::{check_trigger_condition, condition_holds};
use vstd::prelude::*;

verus! {

/// Whether the abilities of an object function where it is.
pub open spec fn functions(o: GameObject) -> bool {
    !o.phased_out && (o.zone == Zone::Command ==> o.is_emblem)
}

pub fn object_functions(o: &GameObject) -> (r: bool)
    ensures
        r == functions(*o),
{
    !o.phased_out && (o.zone != Zone::Command || o.is_emblem)
}

pub open spec fn active_triggers(o: GameObject) -> List<TriggerDefinition> {
    if functions(o) {
        o.trigger_definitions
    } else {
        list_of(seq![])
    }
}

/// The triggered abilities of an object that function, in printed order.
pub fn active_trigger_definitions(o: &GameObject) -> (r: List<TriggerDefinition>)
    ensures
        r == active_triggers(*o),
{
    if object_functions(o) {
        o.trigger_definitions.clone()
    } else {
        List::new()
    }
}

/// Whether a static ability of an object applies (CR 604.1).
pub open spec fn static_applies(g: Game, o: GameObject, def: StaticDefinition) -> bool {
    &&& functions(o)
    &&& match def.condition {
        None => true,
        Some(c) => condition_holds(g, *c, o.controller, Some(o.id), None),
    }
}

pub fn is_static_active(state: &GameState, o: &GameObject, def: &StaticDefinition) -> (r: bool)
    ensures
        r == static_applies(state@, *o, *def),
{
    object_functions(o) && match &def.condition {
        None => true,
        Some(c) => check_trigger_condition(state, c, o.controller, Some(o.id), None),
    }
}

pub open spec fn is_phased_in(g: Game, id: ObjectId) -> bool {
    g.object(id) matches Some(o) && !o.phased_out
}

/// Those of the first `n` permanents that are phased in.
pub open spec fn phased_in(g: Game, n: nat) -> Seq<ObjectId>
    decreases n,
{
    if n == 0 {
        seq![]
    } else {
        let id = g.battlefield[n - 1];
        let before = phased_in(g, (n - 1) as nat);
        if is_phased_in(g, id) {
            before.push(id)
        } else {
            before
        }
    }
}

/// The cards in the graveyards of the first `n` players.
pub open spec fn graveyards(g: Game, n: nat) -> Seq<ObjectId>
    decreases n,
{
    if n == 0 {
        seq![]
    } else {
        graveyards(g, (n - 1) as nat) + g.players[n - 1].graveyard@
    }
}

/// The spells among the lowest `n` entries of the stack.
pub open spec fn spells_on_stack(g: Game, n: nat) -> Seq<ObjectId>
    decreases n,
{
    if n == 0 {
        seq![]
    } else {
        let entry = g.stack[n - 1];
        let before = spells_on_stack(g, (n - 1) as nat);
        if entry.kind is Spell {
            before.push(entry.id)
        } else {
            before
        }
    }
}

pub open spec fn is_active_emblem(g: Game, id: ObjectId) -> bool {
    g.object(id) matches Some(o) && o.is_emblem && !o.phased_out
}

/// Those of the first `n` objects of the command zone that are emblems.
pub open spec fn active_emblems(g: Game, n: nat) -> Seq<ObjectId>
    decreases n,
{
    if n == 0 {
        seq![]
    } else {
        let id = g.command_zone[n - 1];
        let before = active_emblems(g, (n - 1) as nat);
        if is_active_emblem(g, id) {
            before.push(id)
        } else {
            before
        }
    }
}

/// The objects of a zone whose abilities may trigger there. Abilities never trigger from a
/// hand or a library.
#[verifier::opaque]
pub open spec fn trigger_sources(g: Game, zone: Zone) -> Seq<ObjectId> {
    match zone {
        Zone::Battlefield => phased_in(g, g.battlefield.len()),
        Zone::Graveyard => graveyards(g, g.players.len()),
        Zone::Exile => g.exile,
        Zone::Stack => spells_on_stack(g, g.stack.len()),
        Zone::Command => active_emblems(g, g.command_zone.len()),
        Zone::Hand | Zone::Library => seq![],
    }
}

fn push_all(out: &mut Vec<ObjectId>, ids: &List<ObjectId>)
    ensures
        final(out)@ == old(out)@ + ids@,
    decreases ids,
{
    match &ids.node {
        None => {
            assert(out@ =~= old(out)@ + ids@);
        },
        Some(n) => {
            out.push(*n.item);
            push_all(out, &n.rest);
            assert(out@ =~= old(out)@ + ids@);
        },
    }
}

/// The permanents that are phased in, in the order in which they came to the battlefield.
pub fn battlefield_phased_in_ids(state: &GameState) -> (r: Vec<ObjectId>)
    ensures
        r@ == phased_in(state@, state@.battlefield.len()),
{
    let mut out: Vec<ObjectId> = Vec::new();
    let mut i: usize = 0;
    while i < state.battlefield.len()
        invariant
            i <= state.battlefield@.len(),
            out@ == phased_in(state@, i as nat),
        decreases state.battlefield@.len() - i,
    {
        let id = state.battlefield[i];
        let here: bool = match state.objects.get(&id) {
            None => false,
            Some(o) => !o.phased_out,
        };
        if here {
            out.push(id);
        }
        i = i + 1;
    }
    out
}

fn graveyard_ids(state: &GameState) -> (r: Vec<ObjectId>)
    ensures
        r@ == graveyards(state@, state@.players.len()),
{
    let mut out: Vec<ObjectId> = Vec::new();
    let mut i: usize = 0;
    while i < state.players.len()
        invariant
            i <= state.players@.len(),
            out@ == graveyards(state@, i as nat),
        decreases state.players@.len() - i,
    {
        push_all(&mut out, &state.players[i].graveyard);
        i = i + 1;
    }
    out
}

fn exile_ids(state: &GameState) -> (r: Vec<ObjectId>)
    ensures
        r@ == state@.exile,
{
    let mut out: Vec<ObjectId> = Vec::new();
    let mut i: usize = 0;
    while i < state.exile.len()
        invariant
            i <= state.exile@.len(),
            out@ == state.exile@.take(i as int),
        decreases state.exile@.len() - i,
    {
        out.push(state.exile[i]);
        assert(state.exile@.take(i + 1) =~= state.exile@.take(i as int).push(
            state.exile@[i as int],
        ));
        i = i + 1;
    }
    assert(state.exile@.take(i as int) =~= state.exile@);
    out
}

fn stack_spell_ids(state: &GameState) -> (r: Vec<ObjectId>)
    ensures
        r@ == spells_on_stack(state@, state@.stack.len()),
{
    let mut out: Vec<ObjectId> = Vec::new();
    let mut i: usize = 0;
    while i < state.stack.len()
        invariant
            i <= state.stack@.len(),
            out@ == spells_on_stack(state@, i as nat),
        decreases state.stack@.len() - i,
    {
        match &state.stack[i].kind {
            StackEntryKind::Spell { .. } => {
                out.push(state.stack[i].id);
            },
            // CR 111.1b + CR 113.3b: abilities on the stack are not objects.
            StackEntryKind::ActivatedAbility { .. }
            | StackEntryKind::TriggeredAbility { .. }
            | StackEntryKind::KeywordAction { .. } => {},
        }
        i = i + 1;
    }
    out
}

fn emblem_ids(state: &GameState) -> (r: Vec<ObjectId>)
    ensures
        r@ == active_emblems(state@, state@.command_zone.len()),
{
    let mut out: Vec<ObjectId> = Vec::new();
    let mut i: usize = 0;
    while i < state.command_zone.len()
        invariant
            i <= state.command_zone@.len(),
            out@ == active_emblems(state@, i as nat),
        decreases state.command_zone@.len() - i,
    {
        let id = state.command_zone[i];
        let emblem: bool = match state.objects.get(&id) {
            None => false,
            Some(o) => o.is_emblem && !o.phased_out,
        };
        if emblem {
            out.push(id);
        }
        i = i + 1;
    }
    out
}

pub fn trigger_source_ids_for_zone(state: &GameState, zone: Zone) -> (r: Vec<ObjectId>)
    ensures
        r@ == trigger_sources(state@, zone),
{
    proof {
        reveal(trigger_sources);
    }
    match zone {
        // CR 702.26b: Phased-out permanents don't trigger.
        Zone::Battlefield => battlefield_phased_in_ids(state),
        Zone::Graveyard => graveyard_ids(state),
        Zone::Exile => exile_ids(state),
        Zone::Stack => stack_spell_ids(state),
        // CR 114.4: Abilities of emblems function in the command zone.
        Zone::Command => emblem_ids(state),
        Zone::Hand | Zone::Library => Vec::new(),
    }
}

} // verus!
