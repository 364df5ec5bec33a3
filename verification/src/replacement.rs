//! Prevention shields (CR 615), and the batch of combat damage that passes through them.

use crate::ability::{DamageTargetFilter, DamageTargetPlayerScope, ReplacementDefinition};
use crate::ids::{ObjectId, TargetRef};
use crate::layers::{clamp, clamped};
use crate::list::List;
use crate::state::{Game, GameState};
use vstd::prelude::*;

verus! {

/// Where a shield stands: among the pending ones, under the identifier 0, or on a permanent.
#[derive(Clone, Copy, Debug, PartialEq, Eq, Structural)]
pub struct ReplacementId {
    pub source: ObjectId,
    pub index: usize,
}

/// Damage that is about to be dealt.
#[derive(Clone, Copy, Debug, PartialEq, Eq, Structural)]
pub struct ProposedDamage {
    pub target: TargetRef,
    pub amount: u32,
    pub is_combat: bool,
}

/// Whether a shield prevents some damage.
pub open spec fn covers(def: ReplacementDefinition, damage: ProposedDamage) -> bool {
    (def.combat_only ==> damage.is_combat) && match def.damage_target_filter {
        None => true,
        Some(DamageTargetFilter::Player { player: DamageTargetPlayerScope::Specific(p) }) =>
            damage.target == TargetRef::Player(p),
        Some(DamageTargetFilter::Player { player: DamageTargetPlayerScope::Any }) =>
            damage.target is Player,
        Some(DamageTargetFilter::Object { id }) => damage.target == TargetRef::Object(id),
    }
}

fn check_covers(def: &ReplacementDefinition, damage: &ProposedDamage) -> (r: bool)
    ensures
        r == covers(*def, *damage),
{
    (!def.combat_only || damage.is_combat) && match def.damage_target_filter {
        None => true,
        Some(DamageTargetFilter::Player { player: DamageTargetPlayerScope::Specific(p) }) =>
            damage.target == TargetRef::Player(p),
        Some(DamageTargetFilter::Player { player: DamageTargetPlayerScope::Any }) =>
            match damage.target {
            TargetRef::Player(_) => true,
            TargetRef::Object(_) => false,
        },
        Some(DamageTargetFilter::Object { id }) => damage.target == TargetRef::Object(id),
    }
}

/// The first pending shield, from `from` on, that prevents some damage.
pub open spec fn pending_shield(
    shields: Seq<ReplacementDefinition>,
    damage: ProposedDamage,
    from: nat,
) -> Option<ReplacementId>
    decreases shields.len() - from,
{
    if from >= shields.len() {
        None
    } else if covers(shields[from as int], damage) {
        Some(ReplacementId { source: ObjectId(0), index: from as usize })
    } else {
        pending_shield(shields, damage, from + 1)
    }
}

/// The first of a permanent's shields that prevents some damage, counted from `index`.
pub open spec fn hosted_index(
    shields: List<ReplacementDefinition>,
    damage: ProposedDamage,
    index: usize,
) -> Option<usize>
    decreases shields,
{
    match shields.node {
        None => None,
        Some(n) => if covers(*n.item, damage) {
            Some(index)
        } else if index == usize::MAX {
            None
        } else {
            hosted_index(n.rest, damage, (index + 1) as usize)
        },
    }
}

fn find_hosted_index(
    shields: &List<ReplacementDefinition>,
    damage: &ProposedDamage,
    index: usize,
) -> (r: Option<usize>)
    ensures
        r == hosted_index(*shields, *damage, index),
    decreases shields,
{
    match &shields.node {
        None => None,
        Some(n) => if check_covers(&n.item, damage) {
            Some(index)
        } else if index == usize::MAX {
            None
        } else {
            find_hosted_index(&n.rest, damage, index + 1)
        },
    }
}

/// The first shield on a permanent, from the one at `from` on, that prevents some damage.
pub open spec fn hosted_shield(g: Game, damage: ProposedDamage, from: nat) -> Option<ReplacementId>
    decreases g.battlefield.len() - from,
{
    if from >= g.battlefield.len() {
        None
    } else {
        let id = g.battlefield[from as int];
        match g.object(id) {
            Some(o) => match hosted_index(o.replacement_definitions, damage, 0) {
                Some(index) => Some(ReplacementId { source: id, index }),
                None => hosted_shield(g, damage, from + 1),
            },
            None => hosted_shield(g, damage, from + 1),
        }
    }
}

/// The shield that prevents some damage, where there is one: a pending one before one on a
/// permanent, and the older before the newer.
#[verifier::opaque]
pub open spec fn shield_against(g: Game, damage: ProposedDamage) -> Option<ReplacementId> {
    match pending_shield(g.pending_damage_replacements, damage, 0) {
        Some(rid) => Some(rid),
        None => hosted_shield(g, damage, 0),
    }
}

fn find_shield(state: &GameState, damage: &ProposedDamage) -> (r: Option<ReplacementId>)
    ensures
        r == shield_against(state@, *damage),
{
    proof {
        reveal(shield_against);
    }
    let mut i: usize = 0;
    while i < state.pending_damage_replacements.len()
        invariant
            i <= state.pending_damage_replacements@.len(),
            pending_shield(state@.pending_damage_replacements, *damage, 0) == pending_shield(
                state@.pending_damage_replacements,
                *damage,
                i as nat,
            ),
        decreases state.pending_damage_replacements@.len() - i,
    {
        if check_covers(&state.pending_damage_replacements[i], damage) {
            proof {
                reveal(shield_against);
            }
            return Some(ReplacementId { source: ObjectId(0), index: i });
        }
        i = i + 1;
    }
    let mut k: usize = 0;
    while k < state.battlefield.len()
        invariant
            k <= state.battlefield@.len(),
            pending_shield(state@.pending_damage_replacements, *damage, 0) is None,
            hosted_shield(state@, *damage, 0) == hosted_shield(state@, *damage, k as nat),
        decreases state.battlefield@.len() - k,
    {
        let id = state.battlefield[k];
        if let Some(o) = state.objects.get(&id) {
            if let Some(index) = find_hosted_index(&o.replacement_definitions, damage, 0) {
                proof {
                    reveal(shield_against);
                }
                return Some(ReplacementId { source: id, index });
            }
        }
        k = k + 1;
    }
    None
}

/// The shields against the damage of a batch, one by one.
pub open spec fn shields_against(g: Game, batch: Seq<ProposedDamage>) -> Seq<
    Option<ReplacementId>,
> {
    Seq::new(batch.len(), |i: int| shield_against(g, batch[i]))
}

/// A tally with more damage prevented by one shield.
pub open spec fn tally_with(
    tally: Seq<(ReplacementId, i32)>,
    rid: ReplacementId,
    amount: u32,
    from: nat,
) -> Seq<(ReplacementId, i32)>
    decreases tally.len() - from,
{
    if from >= tally.len() {
        tally.push((rid, clamped(amount as int)))
    } else if tally[from as int].0 == rid {
        tally.update(from as int, (rid, clamped(tally[from as int].1 + amount)))
    } else {
        tally_with(tally, rid, amount, from + 1)
    }
}

fn add_to_tally(tally: &mut Vec<(ReplacementId, i32)>, rid: ReplacementId, amount: u32)
    ensures
        final(tally)@ == tally_with(old(tally)@, rid, amount, 0),
{
    let mut i: usize = 0;
    while i < tally.len()
        invariant
            i <= tally@.len(),
            tally@ == old(tally)@,
            tally_with(tally@, rid, amount, 0) == tally_with(tally@, rid, amount, i as nat),
        decreases tally@.len() - i,
    {
        if tally[i].0 == rid {
            let sum: i32 = clamp(tally[i].1 as i64 + amount as i64);
            tally.set(i, (rid, sum));
            return ;
        }
        i = i + 1;
    }
    tally.push((rid, clamp(amount as i64)));
}

/// How much of the first `n` pieces of damage each shield prevents (CR 615.7: the amount counts,
/// not the sources).
pub open spec fn prevention_tally(
    batch: Seq<ProposedDamage>,
    shields: Seq<Option<ReplacementId>>,
    n: nat,
) -> Seq<(ReplacementId, i32)>
    decreases n,
{
    if n == 0 {
        seq![]
    } else {
        let before = prevention_tally(batch, shields, (n - 1) as nat);
        match shields[n - 1] {
            None => before,
            Some(rid) => tally_with(before, rid, batch[n - 1].amount, 0),
        }
    }
}

/// Passes a simultaneous batch of damage through the shields. Each piece of damage is left as it
/// is, or prevented by the shield that is returned for it, and what each shield prevents is
/// added up.
pub fn replace_combat_damage_batch(state: &GameState, batch: &Vec<ProposedDamage>) -> (r: (
    Vec<Option<ReplacementId>>,
    Vec<(ReplacementId, i32)>,
))
    ensures
        r.0@ == shields_against(state@, batch@),
        r.1@ == prevention_tally(batch@, shields_against(state@, batch@), batch@.len()),
{
    let mut shields: Vec<Option<ReplacementId>> = Vec::new();
    let mut tally: Vec<(ReplacementId, i32)> = Vec::new();
    let ghost all = shields_against(state@, batch@);
    let mut i: usize = 0;
    while i < batch.len()
        invariant
            i <= batch@.len(),
            all == shields_against(state@, batch@),
            shields@ =~= all.take(i as int),
            tally@ == prevention_tally(batch@, all, i as nat),
        decreases batch@.len() - i,
    {
        let shield = find_shield(state, &batch[i]);
        shields.push(shield);
        if let Some(rid) = shield {
            add_to_tally(&mut tally, rid, batch[i].amount);
        }
        i = i + 1;
    }
    assert(shields@ =~= all);
    (shields, tally)
}

} // verus!
