//! Who may block whom, what a planeswalker has left to lose, and how a sub-step ends.

use crate::ability::{law_keywords, Keyword};
use crate::combat::{may_block, AttackerInfo, CombatState, DamageAssignment, DamageTarget};
use crate::combat_damage::assignment::{
    damage_on_its_way, excess_over_planeswalker, loyalty_threshold,
};
use crate::combat_damage::collection::damage_collected;
use crate::combat_damage::dealing::combat_damage_dealt;
use crate::combat_damage::{actions_settled, pending_taken, step_done, step_resolved, SubStep};
use crate::effects::ring::bearer_of;
use crate::ids::{AttackTarget, CoreType, ObjectId};
use crate::list::{lemma_items_of, list_rest, List};
use crate::protection::has_protection;
use crate::sba::actions_performed;
use crate::state::{Game, Play};
use crate::triggers::triggers_processed;
use vstd::prelude::*;

verus! {

/// A creature may block an attacker unless the attacker flies and it neither flies nor has reach,
/// the attacker has protection from it, or the attacker bears its controller's Ring and it has
/// more power (CR 509.1b, CR 702.9b, CR 702.16f, CR 701.54c).
pub proof fn law_may_block(g: Game, blocker: ObjectId, attacker: ObjectId)
    ensures
        ({
            let b = g.objects[blocker];
            let a = g.objects[attacker];
            let power_of_b = match b.power {
                None => 0int,
                Some(v) => v as int,
            };
            let power_of_a = match a.power {
                None => 0int,
                Some(v) => v as int,
            };
            may_block(g, blocker, attacker) <==> g.objects.contains_key(blocker)
                && g.objects.contains_key(attacker) && b.card_types.core_types@.contains(
                CoreType::Creature,
            ) && (a.keywords@.contains(Keyword::Flying) ==> b.keywords@.contains(Keyword::Flying)
                || b.keywords@.contains(Keyword::Reach)) && !has_protection(g, attacker, blocker)
                && (bearer_of(g, a.controller) == Some(attacker) ==> power_of_b <= power_of_a)
        }),
{
    law_keywords(g.objects[blocker].keywords);
    law_keywords(g.objects[attacker].keywords);
}

/// The damage that waits for an object is what is assigned to it, piece by piece.
pub proof fn law_on_its_way(pending: List<(ObjectId, DamageAssignment)>, id: ObjectId)
    ensures
        pending.node is None ==> damage_on_its_way(pending, id) == 0,
        pending.node is Some ==> damage_on_its_way(pending, id) == damage_on_its_way(
            list_rest(pending),
            id,
        ) + (if pending@[0].1.target == DamageTarget::Object(id) {
            pending@[0].1.amount as int
        } else {
            0
        }),
{
    if pending.node is Some {
        assert(pending@[0] == *pending.node->0.item);
    }
}

/// With trample over planeswalkers, what no blocker takes goes to the planeswalker as far as it
/// has loyalty that no other damage in the step takes, and beyond that to the defending player
/// (CR 702.19c).
pub proof fn law_over_planeswalker(
    g: Game,
    info: AttackerInfo,
    planeswalker: ObjectId,
    excess: u32,
)
    requires
        info.attack_target == AttackTarget::Planeswalker(planeswalker),
        g.on_battlefield(planeswalker),
        g.objects[planeswalker].loyalty is Some,
        g.combat is Some,
        excess > 0,
    ensures
        ({
            let loyalty = g.objects[planeswalker].loyalty->0 as int;
            let coming = damage_on_its_way(g.combat->0.pending_damage, planeswalker) as int;
            let left = if loyalty > coming {
                loyalty - coming
            } else {
                0
            };
            let damage = excess_over_planeswalker(g, info, excess);
            let to_it = DamageTarget::Object(planeswalker);
            let to_player = DamageTarget::Player(info.defending_player);
            &&& left == 0 ==> damage == seq![DamageAssignment { target: to_player, amount: excess }]
            &&& 0 < left && excess <= left ==> damage == seq![
                DamageAssignment { target: to_it, amount: excess },
            ]
            &&& 0 < left < excess ==> damage == seq![
                DamageAssignment { target: to_it, amount: left as u32 },
                DamageAssignment { target: to_player, amount: (excess - left) as u32 },
            ]
        }),
{
    let loyalty = loyalty_threshold(g, planeswalker);
    let damage = excess_over_planeswalker(g, info, excess);
    let to_it = DamageTarget::Object(planeswalker);
    let to_player = DamageTarget::Player(info.defending_player);
    if loyalty == 0 {
        assert(damage =~= seq![DamageAssignment { target: to_player, amount: excess }]);
    } else if excess <= loyalty {
        assert(damage =~= seq![DamageAssignment { target: to_it, amount: excess }]);
    } else {
        assert(damage =~= seq![
            DamageAssignment { target: to_it, amount: loyalty },
            DamageAssignment { target: to_player, amount: (excess - loyalty) as u32 },
        ]);
    }
}

/// A sub-step that is done is noted as such and no other is, no attacker waits for a decision any
/// more, and nothing else of the combat changes.
pub proof fn law_step_done(g: Game, combat: CombatState, sub_step: SubStep)
    requires
        g.combat == Some(combat),
    ensures
        step_done(g, SubStep::FirstStrike).combat == Some(
            CombatState { first_strike_done: true, damage_step_index: None, ..combat },
        ),
        step_done(g, SubStep::Regular).combat == Some(
            CombatState { regular_damage_done: true, damage_step_index: None, ..combat },
        ),
        step_done(g, sub_step).objects == g.objects,
        step_done(g, sub_step).players == g.players,
        step_done(g, sub_step).stack == g.stack,
{
}

/// A sub-step that nobody has to decide on deals all the damage that was collected at once, and
/// none of it again; it tells of that behind what was told before; then the triggers of the damage
/// are seen to, and only then state-based actions (CR 510.2, CR 510.3, CR 704.3).
pub proof fn law_step_resolved(p: Play, sub_step: SubStep)
    ensures
        ({
            let collected = damage_collected(p.game, sub_step);
            let r = step_resolved(p, sub_step);
            let waiting = match collected.game.combat {
                None => Seq::<(ObjectId, DamageAssignment)>::empty(),
                Some(c) => c.pending_damage@,
            };
            let taken = pending_taken(collected.game);
            let dealt = combat_damage_dealt(taken, waiting);
            let done = step_done(dealt.game, sub_step);
            &&& collected.waiting is Some ==> r.waiting == collected.waiting && r.play.game
                == collected.game && r.play.events == p.events
            &&& collected.waiting is None ==> r.waiting is None && r.play == actions_settled(
                Play {
                    game: triggers_processed(done, dealt.events),
                    events: p.events + dealt.events,
                },
            )
            &&& taken.combat matches Some(c) ==> c.pending_damage@.len() == 0
        }),
{
    reveal(step_resolved);
    lemma_items_of(Seq::<(ObjectId, DamageAssignment)>::empty());
}

/// State-based actions are performed again, with what they set off seen to, until a round tells of
/// nothing (CR 704.3).
pub proof fn law_actions_repeat(p: Play)
    ensures
        ({
            let done = actions_performed(p);
            &&& done.events.len() <= p.events.len() ==> actions_settled(p) == done
            &&& done.events.len() > p.events.len() ==> actions_settled(p) == actions_settled(
                Play {
                    game: triggers_processed(done.game, done.events.skip(p.events.len() as int)),
                    events: done.events,
                },
            )
        }),
{
}

} // verus!
