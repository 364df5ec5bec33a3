//! What keywords a spell has as it is cast, its own and those that others give it.

use crate::ability::{count_kind, Keyword, StaticDefinition, StaticMode};
use crate::filter::{matches_target_filter, object_matches, source_context, FilterContext};
use crate::functioning::{is_static_active, static_applies};
use crate::ids::{KeywordKind, ObjectId};
use crate::list::List;
use crate::object::{capped, GameObject};
use crate::state::{Game, GameState};
use vstd::prelude::*;

verus! {

/// How many keywords of a kind a list holds, capped at the largest `u32`.
pub fn number_of_kind(keywords: &List<Keyword>, kind: KeywordKind) -> (r: u32)
    ensures
        r == capped(count_kind(*keywords, kind)),
    decreases keywords,
{
    match &keywords.node {
        None => 0,
        Some(n) => {
            let rest: u32 = number_of_kind(&n.rest, kind);
            if n.item.kind() == kind {
                rest.saturating_add(1)
            } else {
                rest
            }
        },
    }
}

/// Whether a static ability of `o` gives a spell a keyword of the given kind.
pub open spec fn static_grants(
    g: Game,
    o: GameObject,
    def: StaticDefinition,
    spell: ObjectId,
    kind: KeywordKind,
) -> bool {
    &&& static_applies(g, o, def)
    &&& def.mode matches StaticMode::CastWithKeyword { keyword }
    &&& keyword.kind_spec() == kind
    &&& match def.affected {
        None => true,
        Some(f) => object_matches(g, spell, f, source_context(g, o.id)),
    }
}

pub open spec fn grants_of(
    g: Game,
    o: GameObject,
    defs: List<StaticDefinition>,
    spell: ObjectId,
    kind: KeywordKind,
) -> nat
    decreases defs,
{
    match defs.node {
        None => 0,
        Some(n) => (if static_grants(g, o, *n.item, spell, kind) {
            1nat
        } else {
            0nat
        }) + grants_of(g, o, n.rest, spell, kind),
    }
}

fn check_static_grants(
    state: &GameState,
    o: &GameObject,
    def: &StaticDefinition,
    spell: ObjectId,
    kind: KeywordKind,
) -> (r: bool)
    ensures
        r == static_grants(state@, *o, *def, spell, kind),
{
    is_static_active(state, o, def) && (match &def.mode {
        StaticMode::CastWithKeyword { keyword } => keyword.kind() == kind,
        _ => false,
    }) && match &def.affected {
        None => true,
        Some(f) => matches_target_filter(state, spell, f, &FilterContext::from_source(state, o.id)),
    }
}

fn count_grants_of(
    state: &GameState,
    o: &GameObject,
    defs: &List<StaticDefinition>,
    spell: ObjectId,
    kind: KeywordKind,
) -> (r: u32)
    ensures
        r == capped(grants_of(state@, *o, *defs, spell, kind)),
    decreases defs,
{
    match &defs.node {
        None => 0,
        Some(n) => {
            let rest: u32 = count_grants_of(state, o, &n.rest, spell, kind);
            if check_static_grants(state, o, &n.item, spell, kind) {
                rest.saturating_add(1)
            } else {
                rest
            }
        },
    }
}

/// How many keywords of a kind the first `n` of some objects give a spell.
pub open spec fn grants_by(
    g: Game,
    ids: Seq<ObjectId>,
    spell: ObjectId,
    kind: KeywordKind,
    n: nat,
) -> nat
    decreases n,
{
    if n == 0 {
        0
    } else {
        grants_by(g, ids, spell, kind, (n - 1) as nat) + match g.object(ids[n - 1]) {
            None => 0,
            Some(o) => grants_of(g, o, o.static_definitions, spell, kind),
        }
    }
}

fn count_grants_by(
    state: &GameState,
    ids: &Vec<ObjectId>,
    spell: ObjectId,
    kind: KeywordKind,
) -> (r: u32)
    ensures
        r == capped(grants_by(state@, ids@, spell, kind, ids@.len())),
{
    let mut count: u32 = 0;
    let mut i: usize = 0;
    while i < ids.len()
        invariant
            i <= ids@.len(),
            count == capped(grants_by(state@, ids@, spell, kind, i as nat)),
        decreases ids@.len() - i,
    {
        let here: u32 = match state.objects.get(&ids[i]) {
            None => 0,
            Some(o) => count_grants_of(state, o, &o.static_definitions, spell, kind),
        };
        count = count.saturating_add(here);
        i = i + 1;
    }
    count
}

/// How many keywords of a kind a spell has: its own, and those that permanents and emblems give
/// it.
pub open spec fn effective_keywords(g: Game, spell: ObjectId, kind: KeywordKind) -> nat {
    match g.object(spell) {
        None => 0,
        Some(o) => count_kind(o.keywords, kind) + grants_by(
            g,
            g.battlefield,
            spell,
            kind,
            g.battlefield.len(),
        ) + grants_by(g, g.command_zone, spell, kind, g.command_zone.len()),
    }
}

pub fn effective_spell_keyword_count(
    state: &GameState,
    spell: ObjectId,
    kind: KeywordKind,
) -> (r: u32)
    ensures
        r == capped(effective_keywords(state@, spell, kind)),
{
    match state.objects.get(&spell) {
        None => 0,
        Some(o) => {
            let own: u32 = number_of_kind(&o.keywords, kind);
            let permanents: u32 = count_grants_by(state, &state.battlefield, spell, kind);
            let emblems: u32 = count_grants_by(state, &state.command_zone, spell, kind);
            own.saturating_add(permanents).saturating_add(emblems)
        },
    }
}

} // verus!
