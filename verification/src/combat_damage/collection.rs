//! The damage of a sub-step collected: of the attackers one by one, then of the blockers.

use crate::combat::{
    find_listed, listed_or_none, AttackerInfo, CombatState, DamageAssignment, TrampleKind,
};
use crate::combat_damage::assignment::{
    assign_attacker_damage, assignment_modes, attacker_damage, blocker_damage,
    combat_damage_amount, combat_damage_assignment_modes, combat_damage_of,
    compute_pw_loyalty_threshold, distribute_blocker_damage, division_is_chosen,
    find_striking_damage, find_trample, lethal_damage, lethal_damage_needed, loyalty_threshold,
    needs_interactive_assignment, striking_damage, trample_of, SubStep,
};
use crate::ids::{AttackTarget, KeywordKind, ObjectId};
use crate::list::{list_of, List};
use crate::object::GameObject;
use crate::state::{DamageSlot, Game, GameState, WaitingFor};
use vstd::prelude::*;

verus! {

/// The slots among which an attacker's damage is to be divided.
pub open spec fn damage_slots(g: Game, blockers: Seq<ObjectId>, deathtouch: bool) -> Seq<
    DamageSlot,
> {
    Seq::new(
        blockers.len(),
        |i: int|
            DamageSlot {
                blocker_id: blockers[i],
                lethal_minimum: lethal_damage(g, blockers[i], deathtouch),
            },
    )
}

fn build_damage_slots(state: &GameState, blockers: &Vec<ObjectId>, deathtouch: bool) -> (r: Vec<
    DamageSlot,
>)
    ensures
        r@ == damage_slots(state@, blockers@, deathtouch),
{
    let mut out: Vec<DamageSlot> = Vec::new();
    let mut i: usize = 0;
    while i < blockers.len()
        invariant
            i <= blockers@.len(),
            out@ =~= damage_slots(state@, blockers@, deathtouch).take(i as int),
        decreases blockers@.len() - i,
    {
        out.push(
            DamageSlot {
                blocker_id: blockers[i],
                lethal_minimum: lethal_damage_needed(state, blockers[i], deathtouch),
            },
        );
        i = i + 1;
    }
    assert(out@ =~= damage_slots(state@, blockers@, deathtouch));
    out
}

/// The choice that an attacker's controller has.
pub open spec fn division_choice(
    g: Game,
    combat: CombatState,
    info: AttackerInfo,
    o: GameObject,
) -> WaitingFor {
    let blockers = listed_or_none(combat.blocker_assignments, info.object_id)@;
    let trample = trample_of(o);
    WaitingFor::AssignCombatDamage {
        player: o.controller,
        attacker_id: info.object_id,
        total_damage: combat_damage_of(o),
        blockers: list_of(damage_slots(g, blockers, o.has(KeywordKind::Deathtouch))),
        assignment_modes: list_of(
            assignment_modes(o, info.blocked, blockers.len() > 0, trample),
        ),
        trample,
        defending_player: info.defending_player,
        attack_target: info.attack_target,
        pw_loyalty: match (trample, info.attack_target) {
            (Some(TrampleKind::OverPlaneswalkers), AttackTarget::Planeswalker(id)) => Some(
                loyalty_threshold(g, id),
            ),
            _ => None,
        },
        pw_controller: match (trample, info.attack_target) {
            (Some(TrampleKind::OverPlaneswalkers), AttackTarget::Planeswalker(id)) =>
                g.controller_of(id),
            _ => None,
        },
    }
}

fn build_division_choice(
    state: &GameState,
    combat: &CombatState,
    info: &AttackerInfo,
    o: &GameObject,
) -> (r: WaitingFor)
    ensures
        r == division_choice(state@, *combat, *info, *o),
{
    let blocker_ids = find_listed(&combat.blocker_assignments, info.object_id).to_vec();
    let trample = find_trample(o);
    let blockers = build_damage_slots(
        state,
        &blocker_ids,
        o.has_keyword(KeywordKind::Deathtouch),
    );
    let modes = combat_damage_assignment_modes(o, info.blocked, blocker_ids.len() > 0, trample);
    // CR 702.19c: Compute PW loyalty threshold for trample-over-PW spillover
    let (pw_loyalty, pw_controller) = if trample == Some(TrampleKind::OverPlaneswalkers) {
        compute_pw_loyalty_threshold(state, &info.attack_target)
    } else {
        (None, None)
    };
    WaitingFor::AssignCombatDamage {
        player: o.controller,
        attacker_id: info.object_id,
        total_damage: combat_damage_amount(o),
        blockers: List::from_vec(blockers),
        assignment_modes: List::from_vec(modes),
        trample,
        defending_player: info.defending_player,
        attack_target: info.attack_target,
        pw_loyalty,
        pw_controller,
    }
}

/// The game with more damage waiting to be dealt.
pub open spec fn with_pending(g: Game, more: Seq<(ObjectId, DamageAssignment)>) -> Game {
    match g.combat {
        None => g,
        Some(c) => Game {
            combat: Some(
                CombatState { pending_damage: list_of(c.pending_damage@ + more), ..c },
            ),
            ..g
        },
    }
}

fn add_pending(state: &mut GameState, more: Vec<(ObjectId, DamageAssignment)>)
    ensures
        final(state)@ == with_pending(old(state)@, more@),
{
    if let Some(c) = &mut state.combat {
        let all = c.pending_damage.join(List::from_vec(more));
        c.pending_damage = all;
    }
}

/// The game with the attacker noted at which the collection stopped, or none.
pub open spec fn with_step_index(g: Game, index: Option<usize>) -> Game {
    match g.combat {
        None => g,
        Some(c) => Game { combat: Some(CombatState { damage_step_index: index, ..c }), ..g },
    }
}

fn set_step_index(state: &mut GameState, index: Option<usize>)
    ensures
        final(state)@ == with_step_index(old(state)@, index),
{
    if let Some(c) = &mut state.combat {
        c.damage_step_index = index;
    }
}

/// Damage assignments with their source.
pub open spec fn from_source(source: ObjectId, damage: Seq<DamageAssignment>) -> Seq<
    (ObjectId, DamageAssignment),
> {
    Seq::new(damage.len(), |i: int| (source, damage[i]))
}

fn add_source(source: ObjectId, damage: &Vec<DamageAssignment>) -> (r: Vec<
    (ObjectId, DamageAssignment),
>)
    ensures
        r@ == from_source(source, damage@),
{
    let mut out: Vec<(ObjectId, DamageAssignment)> = Vec::new();
    let mut i: usize = 0;
    while i < damage.len()
        invariant
            i <= damage@.len(),
            out@ =~= from_source(source, damage@).take(i as int),
        decreases damage@.len() - i,
    {
        out.push((source, damage[i]));
        i = i + 1;
    }
    assert(out@ =~= from_source(source, damage@));
    out
}

/// A game, and the decision it waits for, if it waits for one.
pub struct Collected {
    pub game: Game,
    pub waiting: Option<WaitingFor>,
}

/// What comes of one attacker, at position `i`: nothing, where it deals no damage in the sub-step;
/// a choice for its controller; or the damage that it assigns.
#[verifier::opaque]
pub open spec fn attacker_collected(
    g: Game,
    combat: CombatState,
    sub_step: SubStep,
    i: nat,
) -> Collected {
    let info = combat.attackers@[i as int];
    let power = striking_damage(g, info.object_id, sub_step, combat.first_strike_done);
    match g.object(info.object_id) {
        Some(o) => if power == 0 {
            Collected { game: g, waiting: None }
        } else if division_is_chosen(o, combat, info) {
            Collected {
                game: with_step_index(g, Some(i as usize)),
                waiting: Some(division_choice(g, combat, info, o)),
            }
        } else {
            let damage = attacker_damage(
                g,
                info,
                listed_or_none(combat.blocker_assignments, info.object_id)@,
                power,
                o.has(KeywordKind::Deathtouch),
                trample_of(o),
            );
            Collected {
                game: with_pending(g, from_source(info.object_id, damage)),
                waiting: None,
            }
        },
        None => Collected { game: g, waiting: None },
    }
}

fn collect_attacker(
    state: &mut GameState,
    combat: &CombatState,
    sub_step: SubStep,
    info: &AttackerInfo,
    i: usize,
) -> (r: Option<WaitingFor>)
    requires
        i < combat.attackers@.len(),
        *info == combat.attackers@[i as int],
    ensures
        (Collected { game: final(state)@, waiting: r }) == attacker_collected(
            old(state)@,
            *combat,
            sub_step,
            i as nat,
        ),
{
    proof {
        reveal(attacker_collected);
    }
    let power: u32 = find_striking_damage(
        state,
        info.object_id,
        sub_step,
        combat.first_strike_done,
    );
    if power == 0 {
        return None;
    }
    let damage = match state.objects.get(&info.object_id) {
        None => {
            return None;
        },
        Some(o) => {
            // CR 510.1c: Check if interactive assignment is needed (2+ blockers).
            if needs_interactive_assignment(o, combat, info) {
                let choice = build_division_choice(state, combat, info, o);
                // Pause iteration — player must choose damage division.
                set_step_index(state, Some(i));
                return Some(choice);
            }
            // Auto-assign for unblocked, single blocker, or blocked-but-no-current-blockers.
            assign_attacker_damage(
                state,
                info,
                combat,
                power,
                o.has_keyword(KeywordKind::Deathtouch),
                find_trample(o),
            )
        },
    };
    let pending = add_source(info.object_id, &damage);
    add_pending(state, pending);
    None
}

/// What comes of the attackers from `start` on and before `n`. Once one of them waits for a
/// decision, the rest are left.
pub open spec fn attackers_collected(
    g: Game,
    combat: CombatState,
    sub_step: SubStep,
    start: nat,
    n: nat,
) -> Collected
    decreases n,
{
    if n <= start {
        Collected { game: g, waiting: None }
    } else {
        let before = attackers_collected(g, combat, sub_step, start, (n - 1) as nat);
        if before.waiting is Some {
            before
        } else {
            attacker_collected(before.game, combat, sub_step, (n - 1) as nat)
        }
    }
}

proof fn lemma_collection_stopped(
    g: Game,
    combat: CombatState,
    sub_step: SubStep,
    start: nat,
    n: nat,
    m: nat,
)
    requires
        n <= m,
        attackers_collected(g, combat, sub_step, start, n).waiting is Some,
    ensures
        attackers_collected(g, combat, sub_step, start, m) == attackers_collected(
            g,
            combat,
            sub_step,
            start,
            n,
        ),
    decreases m,
{
    if n < m {
        lemma_collection_stopped(g, combat, sub_step, start, n, (m - 1) as nat);
    }
}

/// The game with the damage of some blockers collected.
pub open spec fn blockers_collected(
    g: Game,
    blockers: List<(ObjectId, List<ObjectId>)>,
    sub_step: SubStep,
    first_strike_done: bool,
) -> Game
    decreases blockers,
{
    match blockers.node {
        None => g,
        Some(n) => {
            let power = striking_damage(g, n.item.0, sub_step, first_strike_done);
            let attackers = n.item.1@;
            blockers_collected(
                if power == 0 {
                    g
                } else {
                    with_pending(g, blocker_damage(n.item.0, power, attackers, attackers.len()))
                },
                n.rest,
                sub_step,
                first_strike_done,
            )
        },
    }
}

fn collect_blockers(
    state: &mut GameState,
    blockers: &List<(ObjectId, List<ObjectId>)>,
    sub_step: SubStep,
    first_strike_done: bool,
)
    ensures
        final(state)@ == blockers_collected(old(state)@, *blockers, sub_step, first_strike_done),
    decreases blockers,
{
    match &blockers.node {
        None => {},
        Some(n) => {
            let power: u32 = find_striking_damage(state, n.item.0, sub_step, first_strike_done);
            if power != 0 {
                let pending = distribute_blocker_damage(n.item.0, power, &n.item.1);
                add_pending(state, pending);
            }
            collect_blockers(state, &n.rest, sub_step, first_strike_done);
        },
    }
}

/// What comes of a sub-step's collection: the attackers from where it stopped last, then, if none
/// of them waits for a decision, the blockers.
pub open spec fn damage_collected(g: Game, sub_step: SubStep) -> Collected {
    match g.combat {
        None => Collected { game: g, waiting: None },
        Some(combat) => {
            let start = match combat.damage_step_index {
                None => 0,
                Some(i) => i as nat,
            };
            let attackers = attackers_collected(
                g,
                combat,
                sub_step,
                start,
                combat.attackers@.len(),
            );
            if attackers.waiting is Some {
                attackers
            } else {
                Collected {
                    game: with_step_index(
                        blockers_collected(
                            attackers.game,
                            combat.blocker_to_attacker,
                            sub_step,
                            combat.first_strike_done,
                        ),
                        None,
                    ),
                    waiting: None,
                }
            }
        },
    }
}

/// Iterate attackers (and blockers) for a sub-step, collecting auto-assigned damage
/// into `combat.pending_damage`. Returns `Some(WaitingFor::AssignCombatDamage)` when
/// an attacker has 2+ blockers and needs interactive assignment.
pub fn collect_damage_assignments(state: &mut GameState, sub_step: SubStep) -> (r: Option<
    WaitingFor,
>)
    ensures
        (Collected { game: final(state)@, waiting: r }) == damage_collected(
            old(state)@,
            sub_step,
        ),
{
    let combat = match &state.combat {
        None => {
            return None;
        },
        Some(c) => c.clone(),
    };
    let start: usize = match combat.damage_step_index {
        None => 0,
        Some(i) => i,
    };
    let attackers = combat.attackers.to_vec();
    let ghost g = state@;
    let mut i: usize = start;
    while i < attackers.len()
        invariant
            start <= i,
            attackers@ == combat.attackers@,
            i <= attackers@.len() || i == start,
            (Collected { game: state@, waiting: None }) == attackers_collected(
                g,
                combat,
                sub_step,
                start as nat,
                i as nat,
            ),
            old(state)@ == g,
            g.combat == Some(combat),
            start == (match combat.damage_step_index {
                None => 0,
                Some(i) => i,
            }),
        decreases attackers@.len() - i,
    {
        let waiting = collect_attacker(state, &combat, sub_step, &attackers[i], i);
        i = i + 1;
        if waiting.is_some() {
            proof {
                lemma_collection_stopped(
                    g,
                    combat,
                    sub_step,
                    start as nat,
                    i as nat,
                    attackers@.len(),
                );
            }
            return waiting;
        }
    }
    collect_blockers(state, &combat.blocker_to_attacker, sub_step, combat.first_strike_done);
    // All done for this sub-step — reset index.
    set_step_index(state, None);
    None
}

} // verus!
