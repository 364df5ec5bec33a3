//! Combat: who attacks what, who blocks whom, and the damage waiting to be dealt.

use crate::effects::ring::{bearer_of, ring_bearer_for};
use crate::ids::{AttackTarget, CoreType, KeywordKind, ObjectId, PlayerId};
use crate::list::{list_of, List};
use crate::object::GameObject;
use crate::protection::{check_protection, has_protection};
use crate::state::{Game, GameState};
use vstd::prelude::*;

verus! {

#[derive(Clone, Copy, Debug, PartialEq, Eq, Structural)]
pub struct AttackerInfo {
    pub object_id: ObjectId,
    pub attack_target: AttackTarget,
    pub defending_player: PlayerId,
    pub blocked: bool,
}

#[derive(Clone, Copy, Debug, PartialEq, Eq, Structural)]
pub enum DamageTarget {
    Object(ObjectId),
    Player(PlayerId),
}

#[derive(Clone, Copy, Debug, PartialEq, Eq, Structural)]
pub struct DamageAssignment {
    pub target: DamageTarget,
    pub amount: u32,
}

#[derive(Clone, Copy, Debug, PartialEq, Eq, Structural)]
pub enum TrampleKind {
    Standard,
    OverPlaneswalkers,
}

#[derive(Debug, PartialEq, Eq)]
pub struct CombatState {
    pub attackers: List<AttackerInfo>,
    /// Each attacker with its blockers.
    pub blocker_assignments: List<(ObjectId, List<ObjectId>)>,
    /// Each blocker with the attackers that it blocks.
    pub blocker_to_attacker: List<(ObjectId, List<ObjectId>)>,
    /// Each source with damage that it will deal.
    pub pending_damage: List<(ObjectId, DamageAssignment)>,
    pub first_strike_done: bool,
    pub regular_damage_done: bool,
    pub damage_step_index: Option<usize>,
}

impl CombatState {
    pub fn new() -> (r: Self)
        ensures
            r == (CombatState {
                attackers: list_of(seq![]),
                blocker_assignments: list_of(seq![]),
                blocker_to_attacker: list_of(seq![]),
                pending_damage: list_of(seq![]),
                first_strike_done: false,
                regular_damage_done: false,
                damage_step_index: None,
            }),
    {
        CombatState {
            attackers: List::new(),
            blocker_assignments: List::new(),
            blocker_to_attacker: List::new(),
            pending_damage: List::new(),
            first_strike_done: false,
            regular_damage_done: false,
            damage_step_index: None,
        }
    }
}

impl Clone for CombatState {
    fn clone(&self) -> (r: Self)
        ensures
            r == *self,
    {
        CombatState {
            attackers: self.attackers.clone(),
            blocker_assignments: self.blocker_assignments.clone(),
            blocker_to_attacker: self.blocker_to_attacker.clone(),
            pending_damage: self.pending_damage.clone(),
            first_strike_done: self.first_strike_done,
            regular_damage_done: self.regular_damage_done,
            damage_step_index: self.damage_step_index,
        }
    }
}

/// The objects listed beside `id`, where there are any.
pub open spec fn listed(pairs: List<(ObjectId, List<ObjectId>)>, id: ObjectId) -> Option<
    List<ObjectId>,
>
    decreases pairs,
{
    match pairs.node {
        None => None,
        Some(n) => if n.item.0 == id {
            Some(n.item.1)
        } else {
            listed(n.rest, id)
        },
    }
}

/// The objects listed beside `id`, or none.
pub open spec fn listed_or_none(pairs: List<(ObjectId, List<ObjectId>)>, id: ObjectId) -> List<
    ObjectId,
> {
    match listed(pairs, id) {
        None => list_of(seq![]),
        Some(ids) => ids,
    }
}

/// What is listed beside an object stands in the first pair that names it, and nothing is listed
/// where no pair does.
pub proof fn law_listed(
    named: ObjectId,
    ids: List<ObjectId>,
    rest: List<(ObjectId, List<ObjectId>)>,
    id: ObjectId,
)
    ensures
        ({
            let pairs = List {
                node: Some(
                    std::rc::Rc::new(
                        crate::list::Node { item: std::rc::Rc::new((named, ids)), rest },
                    ),
                ),
            };
            let none = List::<(ObjectId, List<ObjectId>)> { node: None };
            &&& listed_or_none(none, id)@.len() == 0
            &&& named == id ==> listed_or_none(pairs, id) == ids
            &&& named != id ==> listed_or_none(pairs, id) == listed_or_none(rest, id)
        }),
{
}

pub fn find_listed(pairs: &List<(ObjectId, List<ObjectId>)>, id: ObjectId) -> (r: List<ObjectId>)
    ensures
        r == listed_or_none(*pairs, id),
    decreases pairs,
{
    match &pairs.node {
        None => List::new(),
        Some(n) => if n.item.0 == id {
            n.item.1.clone()
        } else {
            find_listed(&n.rest, id)
        },
    }
}

impl AttackerInfo {
    pub fn new(object_id: ObjectId, attack_target: AttackTarget, defending_player: PlayerId) -> (r:
        Self)
        ensures
            r == (AttackerInfo { object_id, attack_target, defending_player, blocked: false }),
    {
        AttackerInfo { object_id, attack_target, defending_player, blocked: false }
    }

    pub fn attacking_player(object_id: ObjectId, player: PlayerId) -> (r: Self)
        ensures
            r == (AttackerInfo {
                object_id,
                attack_target: AttackTarget::Player(player),
                defending_player: player,
                blocked: false,
            }),
    {
        AttackerInfo {
            object_id,
            attack_target: AttackTarget::Player(player),
            defending_player: player,
            blocked: false,
        }
    }

    /// What the attacker's damage goes to: the player it attacks, or the permanent while that
    /// is still on the battlefield. If the permanent has left, the damage goes to no one, or,
    /// for trample over planeswalkers, to the defending player (CR 506.4c, CR 702.19e).
    pub open spec fn damage_target(self, g: Game, over_planeswalkers: bool) -> Option<
        DamageTarget,
    > {
        match self.attack_target {
            AttackTarget::Player(p) => Some(DamageTarget::Player(p)),
            AttackTarget::Planeswalker(id) => if g.on_battlefield(id) {
                Some(DamageTarget::Object(id))
            } else if over_planeswalkers {
                Some(DamageTarget::Player(self.defending_player))
            } else {
                None
            },
            AttackTarget::Battle(id) => if g.on_battlefield(id) {
                Some(DamageTarget::Object(id))
            } else {
                None
            },
        }
    }

    pub fn resolve_damage_target(&self, state: &GameState, over_planeswalkers: bool) -> (r: Option<
        DamageTarget,
    >)
        ensures
            r == self.damage_target(state@, over_planeswalkers),
    {
        match self.attack_target {
            AttackTarget::Player(p) => Some(DamageTarget::Player(p)),
            AttackTarget::Planeswalker(id) => if state.is_on_battlefield(id) {
                Some(DamageTarget::Object(id))
            } else if over_planeswalkers {
                Some(DamageTarget::Player(self.defending_player))
            } else {
                None
            },
            AttackTarget::Battle(id) => if state.is_on_battlefield(id) {
                Some(DamageTarget::Object(id))
            } else {
                None
            },
        }
    }
}

/// Whether one creature can block another: a creature with flying only with flying or reach, one
/// with protection only from outside its quality, and the bearer of its controller's Ring only
/// without greater power (CR 509.1b, CR 702.16f, CR 701.54c).
pub open spec fn may_block(g: Game, blocker_id: ObjectId, attacker_id: ObjectId) -> bool {
    match (g.object(blocker_id), g.object(attacker_id)) {
        (Some(blocker), Some(attacker)) => {
            &&& blocker.is_type(CoreType::Creature)
            &&& attacker.has(KeywordKind::Flying) ==> blocker.has(KeywordKind::Flying)
                || blocker.has(KeywordKind::Reach)
            &&& !has_protection(g, attacker_id, blocker_id)
            &&& bearer_of(g, attacker.controller) == Some(attacker_id)
                ==> power_or_zero(blocker) <= power_or_zero(attacker)
        },
        _ => false,
    }
}

pub open spec fn power_or_zero(o: GameObject) -> i32 {
    match o.power {
        None => 0,
        Some(p) => p,
    }
}

fn read_power(o: &GameObject) -> (r: i32)
    ensures
        r == power_or_zero(*o),
{
    match o.power {
        None => 0,
        Some(p) => p,
    }
}

pub fn can_block_pair(state: &GameState, blocker_id: ObjectId, attacker_id: ObjectId) -> (r: bool)
    ensures
        r == may_block(state@, blocker_id, attacker_id),
{
    match (state.objects.get(&blocker_id), state.objects.get(&attacker_id)) {
        (Some(blocker), Some(attacker)) => {
            let too_low: bool = attacker.has_keyword(KeywordKind::Flying) && !blocker.has_keyword(
                KeywordKind::Flying,
            ) && !blocker.has_keyword(KeywordKind::Reach);
            let too_strong: bool = ring_bearer_for(state, attacker.controller) == Some(attacker_id)
                && read_power(blocker) > read_power(attacker);
            blocker.has_core_type(CoreType::Creature) && !too_low && !too_strong
                && !check_protection(state, attacker_id, blocker_id)
        },
        _ => false,
    }
}

} // verus!
