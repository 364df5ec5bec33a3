//! How much combat damage a creature assigns, and to what (CR 510.1).

use crate::combat::{
    find_listed, listed_or_none, AttackerInfo, CombatState, DamageAssignment, DamageTarget,
    TrampleKind,
};
use crate::damage::{find_lethal, lethal_to};
use crate::ids::{AttackTarget, KeywordKind, ObjectId, PlayerId, Zone};
use crate::list::List;
use crate::object::{capped, GameObject};
use crate::state::{CombatDamageAssignmentMode, Game, GameState};
use vstd::prelude::*;

verus! {

/// How much damage a power or toughness stands for: none below zero.
pub open spec fn damage_number(value: Option<i32>) -> u32 {
    match value {
        None => 0,
        Some(v) => if v > 0 {
            v as u32
        } else {
            0
        },
    }
}

fn to_damage(value: Option<i32>) -> (r: u32)
    ensures
        r == damage_number(value),
{
    match value {
        None => 0,
        Some(v) => if v > 0 {
            v as u32
        } else {
            0
        },
    }
}

/// How much combat damage a creature assigns.
pub open spec fn combat_damage_of(o: GameObject) -> u32 {
    if o.assigns_no_combat_damage {
        0
    } else if o.assigns_damage_from_toughness {
        damage_number(o.toughness)
    } else {
        damage_number(o.power)
    }
}

/// CR 510.1a + CR 613.11: Returns the amount of combat damage a creature assigns.
/// Normally equal to power, but if `assigns_damage_from_toughness` is set (e.g. Doran),
/// uses toughness instead. If `assigns_no_combat_damage` is set, returns 0.
pub fn combat_damage_amount(obj: &GameObject) -> (r: u32)
    ensures
        r == combat_damage_of(*obj),
{
    if obj.assigns_no_combat_damage {
        return 0;
    }
    if obj.assigns_damage_from_toughness {
        to_damage(obj.toughness)
    } else {
        to_damage(obj.power)
    }
}

/// Which sub-step of combat damage assignments are collected for.
#[derive(Clone, Copy, Debug, PartialEq, Eq, Structural)]
pub enum SubStep {
    FirstStrike,
    Regular,
}

/// Whether a creature deals combat damage in a sub-step: with first strike or double strike in
/// the first, and in the second with double strike or, where it has not dealt any yet, without
/// (CR 702.7b, CR 702.4b).
pub open spec fn strikes_in(o: GameObject, sub_step: SubStep, first_strike_done: bool) -> bool {
    match sub_step {
        SubStep::FirstStrike => o.has(KeywordKind::FirstStrike) || o.has(KeywordKind::DoubleStrike),
        SubStep::Regular => !(first_strike_done && o.has(KeywordKind::FirstStrike) && !o.has(
            KeywordKind::DoubleStrike,
        )),
    }
}

pub fn check_strikes_in(o: &GameObject, sub_step: SubStep, first_strike_done: bool) -> (r: bool)
    ensures
        r == strikes_in(*o, sub_step, first_strike_done),
{
    match sub_step {
        SubStep::FirstStrike => o.has_keyword(KeywordKind::FirstStrike) || o.has_keyword(
            KeywordKind::DoubleStrike,
        ),
        SubStep::Regular => !(first_strike_done && o.has_keyword(KeywordKind::FirstStrike)
            && !o.has_keyword(KeywordKind::DoubleStrike)),
    }
}

/// How much combat damage an object assigns in a sub-step: none once it is off the battlefield.
pub open spec fn striking_damage(
    g: Game,
    id: ObjectId,
    sub_step: SubStep,
    first_strike_done: bool,
) -> u32 {
    match g.object(id) {
        None => 0,
        Some(o) => if o.zone == Zone::Battlefield && strikes_in(o, sub_step, first_strike_done) {
            combat_damage_of(o)
        } else {
            0
        },
    }
}

pub fn find_striking_damage(
    state: &GameState,
    id: ObjectId,
    sub_step: SubStep,
    first_strike_done: bool,
) -> (r: u32)
    ensures
        r == striking_damage(state@, id, sub_step, first_strike_done),
{
    match state.objects.get(&id) {
        None => 0,
        Some(o) => if o.zone == Zone::Battlefield && check_strikes_in(
            o,
            sub_step,
            first_strike_done,
        ) {
            combat_damage_amount(o)
        } else {
            0
        },
    }
}

/// The kind of trample a creature has. Trample over planeswalkers goes before plain trample
/// (CR 702.19c).
pub open spec fn trample_of(o: GameObject) -> Option<TrampleKind> {
    if o.has(KeywordKind::TrampleOverPlaneswalkers) {
        Some(TrampleKind::OverPlaneswalkers)
    } else if o.has(KeywordKind::Trample) {
        Some(TrampleKind::Standard)
    } else {
        None
    }
}

pub fn find_trample(o: &GameObject) -> (r: Option<TrampleKind>)
    ensures
        r == trample_of(*o),
{
    if o.has_keyword(KeywordKind::TrampleOverPlaneswalkers) {
        Some(TrampleKind::OverPlaneswalkers)
    } else if o.has_keyword(KeywordKind::Trample) {
        Some(TrampleKind::Standard)
    } else {
        None
    }
}

/// What a blocker deals to the attacker at position `i` of the `n` it blocks: an even share, and
/// to the first attacker also what is left over.
pub open spec fn blocker_share(power: u32, n: nat, i: int) -> u32 {
    if i == 0 {
        (power as int / n as int + power as int % n as int) as u32
    } else {
        (power as int / n as int) as u32
    }
}

/// The damage that a blocker assigns to the first `n` of the attackers it blocks. Among several,
/// one whose share is nothing is left out.
pub open spec fn blocker_damage(
    blocker_id: ObjectId,
    power: u32,
    attackers: Seq<ObjectId>,
    n: nat,
) -> Seq<(ObjectId, DamageAssignment)>
    decreases n,
{
    if n == 0 {
        seq![]
    } else {
        let before = blocker_damage(blocker_id, power, attackers, (n - 1) as nat);
        let amount = blocker_share(power, attackers.len(), n - 1);
        if amount == 0 && attackers.len() > 1 {
            before
        } else {
            before.push(
                (
                    blocker_id,
                    DamageAssignment { target: DamageTarget::Object(attackers[n - 1]), amount },
                ),
            )
        }
    }
}

proof fn lemma_share_fits(power: u32, n: nat)
    requires
        n > 0,
    ensures
        0 <= power as int / n as int,
        0 <= power as int % n as int,
        power as int / n as int + power as int % n as int <= power,
        (power as int / n as int) * n + power as int % n as int == power,
{
    assert(0 <= power as int / n as int && 0 <= power as int % n as int && power as int / n as int
        + power as int % n as int <= power && (power as int / n as int) * n + power as int
        % n as int == power) by (nonlinear_arith)
        requires
            n > 0,
            power >= 0,
    ;
}

/// CR 510.1d: Distribute a blocker's combat damage among the attackers it blocks.
/// When blocking multiple attackers, damage is split evenly (first attacker gets remainder).
pub fn distribute_blocker_damage(
    blocker_id: ObjectId,
    power: u32,
    attacker_ids: &List<ObjectId>,
) -> (r: Vec<(ObjectId, DamageAssignment)>)
    ensures
        r@ == blocker_damage(blocker_id, power, attacker_ids@, attacker_ids@.len()),
{
    let ids = attacker_ids.to_vec();
    let mut out: Vec<(ObjectId, DamageAssignment)> = Vec::new();
    let n: usize = ids.len();
    if n == 0 {
        return out;
    }
    proof {
        lemma_share_fits(power, n as nat);
    }
    let base: u32 = (power as u64 / n as u64) as u32;
    let remainder: u32 = (power as u64 % n as u64) as u32;
    let mut i: usize = 0;
    while i < n
        invariant
            i <= n,
            n == ids@.len(),
            n > 0,
            base == power as int / n as int,
            remainder == power as int % n as int,
            base + remainder <= power,
            out@ == blocker_damage(blocker_id, power, ids@, i as nat),
        decreases n - i,
    {
        let amount: u32 = if i == 0 {
            base + remainder
        } else {
            base
        };
        if amount != 0 || n == 1 {
            out.push(
                (blocker_id, DamageAssignment { target: DamageTarget::Object(ids[i]), amount }),
            );
        }
        i = i + 1;
    }
    out
}

/// Whether an attacker's controller is to decide how its damage is divided.
pub open spec fn division_is_chosen(
    o: GameObject,
    combat: CombatState,
    info: AttackerInfo,
) -> bool {
    let blockers = listed_or_none(combat.blocker_assignments, info.object_id)@.len();
    if o.assigns_damage_as_though_unblocked && info.blocked {
        blockers > 0 || trample_of(o) is None
    } else {
        blockers >= 2
    }
}

/// CR 510.1c: Check if an attacker needs interactive damage assignment.
/// Returns true when there are 2+ blockers — the attacking player should choose
/// how to divide damage. Single-blocker and unblocked scenarios are auto-assigned.
pub fn needs_interactive_assignment(
    obj: &GameObject,
    combat: &CombatState,
    attacker_info: &AttackerInfo,
) -> (r: bool)
    ensures
        r == division_is_chosen(*obj, *combat, *attacker_info),
{
    let blocker_count: usize = find_listed(
        &combat.blocker_assignments,
        attacker_info.object_id,
    ).len();
    if obj.assigns_damage_as_though_unblocked && attacker_info.blocked {
        let has_trample: bool = obj.has_keyword(KeywordKind::Trample) || obj.has_keyword(
            KeywordKind::TrampleOverPlaneswalkers,
        );
        return blocker_count > 0 || !has_trample;
    }
    blocker_count >= 2
}

/// How much of some pending damage goes to an object.
pub open spec fn damage_on_its_way(
    pending: List<(ObjectId, DamageAssignment)>,
    id: ObjectId,
) -> nat
    decreases pending,
{
    match pending.node {
        None => 0,
        Some(n) => (if n.item.1.target == DamageTarget::Object(id) {
            n.item.1.amount as nat
        } else {
            0nat
        }) + damage_on_its_way(n.rest, id),
    }
}

fn sum_damage_on_its_way(pending: &List<(ObjectId, DamageAssignment)>, id: ObjectId) -> (r: u32)
    ensures
        r == capped(damage_on_its_way(*pending, id)),
    decreases pending,
{
    match &pending.node {
        None => 0,
        Some(n) => {
            let rest: u32 = sum_damage_on_its_way(&n.rest, id);
            if n.item.1.target == DamageTarget::Object(id) {
                n.item.1.amount.saturating_add(rest)
            } else {
                rest
            }
        },
    }
}

/// The loyalty that a planeswalker will have left after the damage that is on its way.
pub open spec fn loyalty_threshold(g: Game, id: ObjectId) -> u32 {
    let loyalty: u32 = match g.object(id) {
        Some(o) => match o.loyalty {
            Some(l) => l,
            None => 0,
        },
        None => 0,
    };
    let coming = match g.combat {
        None => 0,
        Some(c) => damage_on_its_way(c.pending_damage, id),
    };
    if loyalty > coming {
        (loyalty - coming) as u32
    } else {
        0
    }
}

/// CR 702.19c: Compute effective PW loyalty threshold for trample-over-PW,
/// accounting for pending damage from other attackers in the same step.
pub fn compute_pw_loyalty_threshold(state: &GameState, attack_target: &AttackTarget) -> (r: (
    Option<u32>,
    Option<PlayerId>,
))
    ensures
        r == (match *attack_target {
            AttackTarget::Planeswalker(id) => (
                Some(loyalty_threshold(state@, id)),
                state@.controller_of(id),
            ),
            _ => (None, None),
        }),
{
    if let AttackTarget::Planeswalker(pw_id) = attack_target {
        let (base_loyalty, controller): (u32, Option<PlayerId>) = match state.objects.get(pw_id) {
            None => (0, None),
            Some(o) => (
                match o.loyalty {
                    None => 0,
                    Some(l) => l,
                },
                Some(o.controller),
            ),
        };
        // CR 702.19c: Account for pending damage from other attackers this step
        let pending_to_pw: u32 = match &state.combat {
            None => 0,
            Some(c) => sum_damage_on_its_way(&c.pending_damage, *pw_id),
        };
        (Some(base_loyalty.saturating_sub(pending_to_pw)), controller)
    } else {
        (None, None)
    }
}

/// The damage to one target, where there is a target.
pub open spec fn all_to(target: Option<DamageTarget>, amount: u32) -> Seq<DamageAssignment> {
    match target {
        None => seq![],
        Some(target) => seq![DamageAssignment { target, amount }],
    }
}

fn assign_all_to(target: Option<DamageTarget>, amount: u32) -> (r: Vec<DamageAssignment>)
    ensures
        r@ == all_to(target, amount),
{
    match target {
        None => Vec::new(),
        Some(target) => vec![DamageAssignment { target, amount }],
    }
}

/// What an attacker with trample over planeswalkers does with damage that no blocker takes: as
/// much as it has loyalty to the planeswalker, the rest to the defending player.
pub open spec fn excess_over_planeswalker(g: Game, info: AttackerInfo, excess: u32) -> Seq<
    DamageAssignment,
> {
    let loyalty = match info.attack_target {
        AttackTarget::Planeswalker(id) => loyalty_threshold(g, id),
        _ => 0,
    };
    let to_planeswalker = if excess < loyalty {
        excess
    } else {
        loyalty
    };
    let to_player = (excess - to_planeswalker) as u32;
    (if to_planeswalker > 0 {
        all_to(info.damage_target(g, true), to_planeswalker)
    } else {
        seq![]
    }) + (if to_player > 0 {
        seq![
            DamageAssignment {
                target: DamageTarget::Player(info.defending_player),
                amount: to_player,
            },
        ]
    } else {
        seq![]
    })
}

/// Assign trample excess damage when attacking a PW with trample-over-PW.
/// CR 702.19c: lethal to blocker(s) → loyalty-worth to PW → excess to PW controller, which is
/// the defending player (CR 506.2).
pub fn assign_trample_over_pw_excess(
    state: &GameState,
    attacker_info: &AttackerInfo,
    excess: u32,
) -> (r: Vec<DamageAssignment>)
    ensures
        r@ == excess_over_planeswalker(state@, *attacker_info, excess),
{
    let mut result: Vec<DamageAssignment> = Vec::new();
    let (pw_loyalty, _) = compute_pw_loyalty_threshold(state, &attacker_info.attack_target);
    let effective_loyalty: u32 = match pw_loyalty {
        None => 0,
        Some(l) => l,
    };
    let to_pw: u32 = if excess < effective_loyalty {
        excess
    } else {
        effective_loyalty
    };
    let to_controller: u32 = excess - to_pw;
    if to_pw > 0 {
        // CR 702.19e: if the planeswalker is gone, the defending player takes its share.
        if let Some(target) = attacker_info.resolve_damage_target(state, true) {
            result.push(DamageAssignment { target, amount: to_pw });
        }
    }
    if to_controller > 0 {
        result.push(
            DamageAssignment {
                target: DamageTarget::Player(attacker_info.defending_player),
                amount: to_controller,
            },
        );
    }
    assert(result@ =~= excess_over_planeswalker(state@, *attacker_info, excess));
    result
}

/// The ways in which an attacker's damage can be assigned.
pub open spec fn assignment_modes(
    o: GameObject,
    blocked: bool,
    has_blockers: bool,
    trample: Option<TrampleKind>,
) -> Seq<CombatDamageAssignmentMode> {
    if o.assigns_damage_as_though_unblocked && blocked && (has_blockers || trample is None) {
        seq![CombatDamageAssignmentMode::Normal, CombatDamageAssignmentMode::AsThoughUnblocked]
    } else {
        seq![CombatDamageAssignmentMode::Normal]
    }
}

pub fn combat_damage_assignment_modes(
    obj: &GameObject,
    blocked: bool,
    has_blockers: bool,
    trample: Option<TrampleKind>,
) -> (r: Vec<CombatDamageAssignmentMode>)
    ensures
        r@ == assignment_modes(*obj, blocked, has_blockers, trample),
{
    if obj.assigns_damage_as_though_unblocked && blocked && (has_blockers || trample.is_none()) {
        vec![CombatDamageAssignmentMode::Normal, CombatDamageAssignmentMode::AsThoughUnblocked]
    } else {
        vec![CombatDamageAssignmentMode::Normal]
    }
}

/// The damage of an attacker that assigns it as though it weren't blocked.
pub fn assign_damage_as_though_unblocked(
    state: &GameState,
    attacker_info: &AttackerInfo,
    power: u32,
    trample: Option<TrampleKind>,
) -> (r: Vec<DamageAssignment>)
    ensures
        r@ == all_to(
            attacker_info.damage_target(state@, trample == Some(TrampleKind::OverPlaneswalkers)),
            power,
        ),
{
    let is_over_pw: bool = trample == Some(TrampleKind::OverPlaneswalkers);
    assign_all_to(attacker_info.resolve_damage_target(state, is_over_pw), power)
}

/// How much damage destroys a creature; 1 for something that is no object.
pub open spec fn lethal_damage(g: Game, id: ObjectId, deathtouch: bool) -> u32 {
    match g.object(id) {
        None => 1,
        Some(o) => lethal_to(o, deathtouch),
    }
}

/// How much damage is needed to kill this creature.
/// CR 702.2c: Deathtouch — any amount of damage from a deathtouch source is lethal.
pub fn lethal_damage_needed(
    state: &GameState,
    object_id: ObjectId,
    source_has_deathtouch: bool,
) -> (r: u32)
    ensures
        r == lethal_damage(state@, object_id, source_has_deathtouch),
{
    match state.objects.get(&object_id) {
        None => 1,
        Some(o) => find_lethal(o, source_has_deathtouch),
    }
}

/// Whether an attacker with the given trample goes over a planeswalker it attacks.
pub open spec fn goes_over_planeswalker(info: AttackerInfo, trample: Option<TrampleKind>) -> bool {
    trample == Some(TrampleKind::OverPlaneswalkers) && info.attack_target is Planeswalker
}

/// What an attacker with trample does with damage that no blocker takes (CR 702.19b to
/// CR 702.19f).
pub open spec fn trampling_over(
    g: Game,
    info: AttackerInfo,
    excess: u32,
    trample: Option<TrampleKind>,
) -> Seq<DamageAssignment> {
    if goes_over_planeswalker(info, trample) {
        excess_over_planeswalker(g, info, excess)
    } else {
        all_to(info.damage_target(g, false), excess)
    }
}

/// The damage of an attacker with at most one blocker. Unblocked, it goes to what is attacked.
/// Blocked by a creature that is no longer there, it goes on with trample and nowhere without.
/// With a blocker, it goes to the blocker, and with trample what is not needed to destroy the
/// blocker goes on.
pub open spec fn attacker_damage(
    g: Game,
    info: AttackerInfo,
    blockers: Seq<ObjectId>,
    power: u32,
    deathtouch: bool,
    trample: Option<TrampleKind>,
) -> Seq<DamageAssignment> {
    if blockers.len() == 0 {
        if !info.blocked {
            all_to(
                info.damage_target(g, trample == Some(TrampleKind::OverPlaneswalkers)),
                power,
            )
        } else if trample is Some {
            trampling_over(g, info, power, trample)
        } else {
            seq![]
        }
    } else if trample is None {
        seq![DamageAssignment { target: DamageTarget::Object(blockers[0]), amount: power }]
    } else {
        let lethal = lethal_damage(g, blockers[0], deathtouch);
        let to_blocker = if power < lethal {
            power
        } else {
            lethal
        };
        let excess = (power - to_blocker) as u32;
        seq![DamageAssignment { target: DamageTarget::Object(blockers[0]), amount: to_blocker }] + (
        if excess > 0 {
            trampling_over(g, info, excess, trample)
        } else {
            seq![]
        })
    }
}

fn trample_over(
    state: &GameState,
    info: &AttackerInfo,
    excess: u32,
    trample: Option<TrampleKind>,
) -> (r: Vec<DamageAssignment>)
    ensures
        r@ == trampling_over(state@, *info, excess, trample),
{
    let attacks_planeswalker: bool = match info.attack_target {
        AttackTarget::Planeswalker(_) => true,
        _ => false,
    };
    if trample == Some(TrampleKind::OverPlaneswalkers) && attacks_planeswalker {
        // CR 702.19c: split between the planeswalker, up to its loyalty, and its controller.
        assign_trample_over_pw_excess(state, info, excess)
    } else {
        // CR 702.19f: all to what is attacked.
        assign_all_to(info.resolve_damage_target(state, false), excess)
    }
}

/// Auto-assign damage for unblocked or single-blocker attackers.
/// Multi-blocker cases (2+) are decided by the attacker's controller.
pub fn assign_attacker_damage(
    state: &GameState,
    attacker_info: &AttackerInfo,
    combat: &CombatState,
    power: u32,
    has_deathtouch: bool,
    trample: Option<TrampleKind>,
) -> (r: Vec<DamageAssignment>)
    requires
        listed_or_none(combat.blocker_assignments, attacker_info.object_id)@.len() <= 1,
    ensures
        r@ == attacker_damage(
            state@,
            *attacker_info,
            listed_or_none(combat.blocker_assignments, attacker_info.object_id)@,
            power,
            has_deathtouch,
            trample,
        ),
{
    let blockers = find_listed(&combat.blocker_assignments, attacker_info.object_id);
    match blockers.get(0) {
        None => {
            if !attacker_info.blocked {
                // CR 510.1b: Unblocked creature assigns damage to the player/planeswalker/battle
                // it's attacking. CR 506.4c / CR 702.19e: If PW left, trample-over-PW falls back
                // to defending player.
                assign_damage_as_though_unblocked(state, attacker_info, power, trample)
            } else if trample.is_some() {
                // CR 702.19d: Trample (both variants) — blocked but no blockers remaining,
                // assign all damage to attack target as though lethal was assigned.
                trample_over(state, attacker_info, power, trample)
            } else {
                // CR 509.1h + CR 510.1c: Non-trample blocked creature with all
                // blockers removed — still "blocked" and assigns no damage.
                Vec::new()
            }
        },
        Some(blocker) => {
            let mut result: Vec<DamageAssignment> = Vec::new();
            if trample.is_none() {
                result.push(
                    DamageAssignment { target: DamageTarget::Object(*blocker), amount: power },
                );
                assert(result@ =~= attacker_damage(
                    state@,
                    *attacker_info,
                    blockers@,
                    power,
                    has_deathtouch,
                    trample,
                ));
                return result;
            }
            // CR 702.19b: Trample — assign lethal to blocker, excess to attack target.
            let lethal: u32 = lethal_damage_needed(state, *blocker, has_deathtouch);
            let to_blocker: u32 = if power < lethal {
                power
            } else {
                lethal
            };
            let excess: u32 = power - to_blocker;
            result.push(
                DamageAssignment { target: DamageTarget::Object(*blocker), amount: to_blocker },
            );
            if excess > 0 {
                let mut rest = trample_over(state, attacker_info, excess, trample);
                result.append(&mut rest);
            }
            assert(result@ =~= attacker_damage(
                state@,
                *attacker_info,
                blockers@,
                power,
                has_deathtouch,
                trample,
            ));
            result
        },
    }
}

} // verus!
