//! Which creatures deal combat damage in a sub-step, how much, and to what (CR 510.1, CR 702.4,
//! CR 702.7).

use crate::ability::{law_keywords, Keyword};
use crate::combat::{
    listed_or_none, AttackerInfo, CombatState, DamageAssignment, DamageTarget, TrampleKind,
};
use crate::combat_damage::assignment::{
    assignment_modes, attacker_damage, blocker_damage, blocker_share, combat_damage_of,
    division_is_chosen, lethal_damage, striking_damage, trample_of, SubStep,
};
use crate::combat_damage::collection::{
    attacker_collected, attackers_collected, blockers_collected, damage_collected, damage_slots,
    from_source, with_pending,
};
use crate::combat_damage::laws::{law_blocker_deals_all, total_assigned, total_of};
use crate::combat_damage::{
    attackers_strike_first, blockers_strike_first, combat_damage_resolved, pending_of,
    step_resolved, strikes_first,
};
use crate::ids::{AttackTarget, KeywordKind, ObjectId, Zone};
use crate::list::{lemma_items_of, list_rest, List};
use crate::object::GameObject;
use crate::state::{CombatDamageAssignmentMode, Game, Play, WaitingFor};
use vstd::prelude::*;

verus! {

/// What of some damage one source deals, in its order.
pub open spec fn damage_from(
    damage: Seq<(ObjectId, DamageAssignment)>,
    source: ObjectId,
) -> Seq<DamageAssignment>
    decreases damage.len(),
{
    if damage.len() == 0 {
        seq![]
    } else if damage.last().0 == source {
        damage_from(damage.drop_last(), source).push(damage.last().1)
    } else {
        damage_from(damage.drop_last(), source)
    }
}

/// The damage that waits to be dealt in one game and did not yet in another.
pub open spec fn newly_pending(before: Game, after: Game) -> Seq<(ObjectId, DamageAssignment)> {
    pending_of(after).skip(pending_of(before).len() as int)
}

proof fn lemma_damage_from_both(
    a: Seq<(ObjectId, DamageAssignment)>,
    b: Seq<(ObjectId, DamageAssignment)>,
    source: ObjectId,
)
    ensures
        damage_from(a + b, source) == damage_from(a, source) + damage_from(b, source),
    decreases b.len(),
{
    if b.len() == 0 {
        assert(a + b =~= a);
        assert(damage_from(a, source) + damage_from(b, source) =~= damage_from(a, source));
    } else {
        lemma_damage_from_both(a, b.drop_last(), source);
        assert((a + b).drop_last() =~= a + b.drop_last());
        assert(damage_from(a + b, source) =~= damage_from(a, source) + damage_from(b, source));
    }
}

proof fn lemma_damage_from_other(damage: Seq<(ObjectId, DamageAssignment)>, source: ObjectId)
    requires
        forall|i: int| 0 <= i < damage.len() ==> (#[trigger] damage[i]).0 != source,
    ensures
        damage_from(damage, source) == Seq::<DamageAssignment>::empty(),
    decreases damage.len(),
{
    if damage.len() > 0 {
        assert(damage.last() == damage[damage.len() - 1]);
        lemma_damage_from_other(damage.drop_last(), source);
    }
}

proof fn lemma_damage_from_own(damage: Seq<(ObjectId, DamageAssignment)>, source: ObjectId)
    requires
        forall|i: int| 0 <= i < damage.len() ==> (#[trigger] damage[i]).0 == source,
    ensures
        damage_from(damage, source).len() == damage.len(),
        forall|i: int|
            0 <= i < damage.len() ==> #[trigger] damage_from(damage, source)[i] == damage[i].1,
        total_assigned(damage_from(damage, source)) == total_of(damage),
    decreases damage.len(),
{
    if damage.len() > 0 {
        assert(damage.last() == damage[damage.len() - 1]);
        let less = damage.drop_last();
        lemma_damage_from_own(less, source);
        let own = damage_from(less, source);
        assert(own.push(damage.last().1).drop_last() =~= own);
        assert forall|i: int| 0 <= i < damage.len() implies #[trigger] damage_from(
            damage,
            source,
        )[i] == damage[i].1 by {
            if i < less.len() {
                assert(less[i] == damage[i]);
            }
        }
    }
}

/// Whether one game is another in which more damage waits to be dealt.
spec fn only_more_pending(a: Game, b: Game) -> bool {
    &&& a.combat is Some && b.combat is Some
    &&& b == Game { combat: b.combat, ..a }
    &&& b.combat->0 == CombatState {
        pending_damage: b.combat->0.pending_damage,
        damage_step_index: b.combat->0.damage_step_index,
        ..a.combat->0
    }
    &&& pending_of(b) == pending_of(a) + newly_pending(a, b)
}

proof fn lemma_more_pending_twice(a: Game, b: Game, c: Game)
    requires
        only_more_pending(a, b),
        only_more_pending(b, c),
    ensures
        only_more_pending(a, c),
        newly_pending(a, c) == newly_pending(a, b) + newly_pending(b, c),
{
    assert(newly_pending(a, c) =~= newly_pending(a, b) + newly_pending(b, c));
    assert(pending_of(c) =~= pending_of(a) + newly_pending(a, c));
}

proof fn lemma_with_pending(g: Game, more: Seq<(ObjectId, DamageAssignment)>)
    requires
        g.combat is Some,
    ensures
        only_more_pending(g, with_pending(g, more)),
        newly_pending(g, with_pending(g, more)) == more,
{
    let all = g.combat->0.pending_damage@ + more;
    lemma_items_of(all);
    assert(newly_pending(g, with_pending(g, more)) =~= more);
}

proof fn lemma_none_pending(g: Game)
    requires
        g.combat is Some,
    ensures
        only_more_pending(g, g),
        newly_pending(g, g) == Seq::<(ObjectId, DamageAssignment)>::empty(),
{
    assert(newly_pending(g, g) =~= Seq::<(ObjectId, DamageAssignment)>::empty());
    assert(pending_of(g) =~= pending_of(g) + newly_pending(g, g));
}

proof fn lemma_blocker_sources(blocker: ObjectId, power: u32, attackers: Seq<ObjectId>, n: nat)
    ensures
        forall|i: int|
            0 <= i < blocker_damage(blocker, power, attackers, n).len() ==> (
            #[trigger] blocker_damage(blocker, power, attackers, n)[i]).0 == blocker,
        forall|k: int|
            0 <= k < n && (blocker_share(power, attackers.len(), k) > 0 || attackers.len() == 1)
                ==> blocker_damage(blocker, power, attackers, n).contains(
                (
                    blocker,
                    DamageAssignment {
                        target: DamageTarget::Object(#[trigger] attackers[k]),
                        amount: blocker_share(power, attackers.len(), k),
                    },
                ),
            ),
    decreases n,
{
    if n > 0 {
        lemma_blocker_sources(blocker, power, attackers, (n - 1) as nat);
        let before = blocker_damage(blocker, power, attackers, (n - 1) as nat);
        let now = blocker_damage(blocker, power, attackers, n);
        assert forall|i: int| 0 <= i < now.len() implies (#[trigger] now[i]).0 == blocker by {
            if i < before.len() {
                assert(now[i] == before[i]);
            }
        }
        assert forall|k: int|
            0 <= k < n && (blocker_share(power, attackers.len(), k) > 0 || attackers.len()
                == 1) implies now.contains(
            (
                blocker,
                DamageAssignment {
                    target: DamageTarget::Object(#[trigger] attackers[k]),
                    amount: blocker_share(power, attackers.len(), k),
                },
            ),
        ) by {
            let x = (
                blocker,
                DamageAssignment {
                    target: DamageTarget::Object(attackers[k]),
                    amount: blocker_share(power, attackers.len(), k),
                },
            );
            if k < n - 1 {
                let i = choose|i: int| 0 <= i < before.len() && before[i] == x;
                assert(now[i] == x);
            } else {
                assert(now[before.len() as int] == x);
            }
        }
    }
}

/// What the blockers add: nothing for a source that is not among them.
proof fn lemma_blockers_other(
    g: Game,
    blockers: List<(ObjectId, List<ObjectId>)>,
    sub_step: SubStep,
    done: bool,
    id: ObjectId,
)
    requires
        g.combat is Some,
        forall|i: int| 0 <= i < blockers@.len() ==> (#[trigger] blockers@[i]).0 != id,
    ensures
        only_more_pending(g, blockers_collected(g, blockers, sub_step, done)),
        damage_from(newly_pending(g, blockers_collected(g, blockers, sub_step, done)), id)
            == Seq::<DamageAssignment>::empty(),
    decreases blockers,
{
    if blockers.node is None {
        lemma_none_pending(g);
    } else {
        let item = *blockers.node->0.item;
        let rest = list_rest(blockers);
        assert(blockers@[0] == item);
        assert forall|i: int| 0 <= i < rest@.len() implies (#[trigger] rest@[i]).0 != id by {
            assert(blockers@[i + 1] == rest@[i]);
        }
        let next = lemma_blocker_step(g, item, sub_step, done);
        let more = newly_pending(g, next);
        lemma_damage_from_other(more, id);
        lemma_blockers_other(next, rest, sub_step, done, id);
        let end = blockers_collected(g, blockers, sub_step, done);
        assert(end == blockers_collected(next, rest, sub_step, done));
        lemma_more_pending_twice(g, next, end);
        lemma_damage_from_both(more, newly_pending(next, end), id);
        assert(damage_from(newly_pending(g, end), id) =~= Seq::<DamageAssignment>::empty());
    }
}

/// The game after one blocker's damage has been collected.
proof fn lemma_blocker_step(
    g: Game,
    item: (ObjectId, List<ObjectId>),
    sub_step: SubStep,
    done: bool,
) -> (next: Game)
    requires
        g.combat is Some,
    ensures
        next == (if striking_damage(g, item.0, sub_step, done) == 0 {
            g
        } else {
            with_pending(
                g,
                blocker_damage(
                    item.0,
                    striking_damage(g, item.0, sub_step, done),
                    item.1@,
                    item.1@.len(),
                ),
            )
        }),
        only_more_pending(g, next),
        newly_pending(g, next) == (if striking_damage(g, item.0, sub_step, done) == 0 {
            seq![]
        } else {
            blocker_damage(
                item.0,
                striking_damage(g, item.0, sub_step, done),
                item.1@,
                item.1@.len(),
            )
        }),
        forall|i: int|
            0 <= i < newly_pending(g, next).len() ==> (#[trigger] newly_pending(g, next)[i]).0
                == item.0,
{
    let power = striking_damage(g, item.0, sub_step, done);
    if power == 0 {
        lemma_none_pending(g);
        g
    } else {
        let more = blocker_damage(item.0, power, item.1@, item.1@.len());
        lemma_with_pending(g, more);
        lemma_blocker_sources(item.0, power, item.1@, item.1@.len());
        with_pending(g, more)
    }
}

/// What the blockers add for the one that stands at `b`, and nowhere else, among them.
proof fn lemma_blockers_one(
    g: Game,
    blockers: List<(ObjectId, List<ObjectId>)>,
    sub_step: SubStep,
    done: bool,
    b: int,
)
    requires
        g.combat is Some,
        0 <= b < blockers@.len(),
        forall|i: int|
            0 <= i < blockers@.len() && i != b ==> (#[trigger] blockers@[i]).0 != blockers@[b].0,
    ensures
        only_more_pending(g, blockers_collected(g, blockers, sub_step, done)),
        ({
            let id = blockers@[b].0;
            let attackers = blockers@[b].1@;
            let power = striking_damage(g, id, sub_step, done);
            damage_from(newly_pending(g, blockers_collected(g, blockers, sub_step, done)), id) == (
            if power == 0 {
                seq![]
            } else {
                damage_from(blocker_damage(id, power, attackers, attackers.len()), id)
            })
        }),
    decreases blockers,
{
    let item = *blockers.node->0.item;
    let rest = list_rest(blockers);
    let id = blockers@[b].0;
    assert(blockers@[0] == item);
    let next = lemma_blocker_step(g, item, sub_step, done);
    let more = newly_pending(g, next);
    let end = blockers_collected(g, blockers, sub_step, done);
    assert(end == blockers_collected(next, rest, sub_step, done));
    assert forall|i: int| 0 <= i < rest@.len() implies #[trigger] rest@[i] == blockers@[i + 1] by {}
    assert(g.objects == next.objects);
    if b == 0 {
        lemma_blockers_other(next, rest, sub_step, done, id);
    } else {
        assert(rest@[b - 1] == blockers@[b]);
        lemma_blockers_one(next, rest, sub_step, done, b - 1);
        lemma_damage_from_other(more, id);
    }
    lemma_more_pending_twice(g, next, end);
    lemma_damage_from_both(more, newly_pending(next, end), id);
    let own = damage_from(more, id);
    let later = damage_from(newly_pending(next, end), id);
    if b == 0 {
        assert(own + later =~= own);
    } else {
        assert(own + later =~= later);
    }
}

/// What the attackers from `start` to `n` add: nothing for a source that is not among them.
proof fn lemma_attackers_other(
    g: Game,
    combat: CombatState,
    sub_step: SubStep,
    start: nat,
    n: nat,
    id: ObjectId,
)
    requires
        g.combat is Some,
        n <= combat.attackers@.len() || n <= start,
        forall|i: int|
            start <= i < n ==> (#[trigger] combat.attackers@[i]).object_id != id,
    ensures
        only_more_pending(g, attackers_collected(g, combat, sub_step, start, n).game),
        damage_from(
            newly_pending(g, attackers_collected(g, combat, sub_step, start, n).game),
            id,
        ) == Seq::<DamageAssignment>::empty(),
    decreases n,
{
    if n <= start {
        lemma_none_pending(g);
    } else {
        lemma_attackers_other(g, combat, sub_step, start, (n - 1) as nat, id);
        let before = attackers_collected(g, combat, sub_step, start, (n - 1) as nat);
        if before.waiting is None {
            let after = attacker_collected(before.game, combat, sub_step, (n - 1) as nat).game;
            lemma_attacker_step(before.game, combat, sub_step, (n - 1) as nat);
            let more = newly_pending(before.game, after);
            lemma_damage_from_other(more, id);
            lemma_more_pending_twice(g, before.game, after);
            lemma_damage_from_both(newly_pending(g, before.game), more, id);
            assert(damage_from(newly_pending(g, after), id) =~= Seq::<DamageAssignment>::empty());
        }
    }
}

proof fn lemma_attacker_step(g: Game, combat: CombatState, sub_step: SubStep, i: nat)
    requires
        g.combat is Some,
    ensures
        ({
            let after = attacker_collected(g, combat, sub_step, i);
            let info = combat.attackers@[i as int];
            let power = striking_damage(g, info.object_id, sub_step, combat.first_strike_done);
            &&& only_more_pending(g, after.game)
            &&& forall|k: int|
                0 <= k < newly_pending(g, after.game).len() ==> (
                #[trigger] newly_pending(g, after.game)[k]).0 == info.object_id
            &&& power == 0 ==> newly_pending(g, after.game) == Seq::<
                (ObjectId, DamageAssignment),
            >::empty()
            &&& power > 0 && after.waiting is None ==> newly_pending(g, after.game) == from_source(
                info.object_id,
                attacker_damage(
                    g,
                    info,
                    listed_or_none(combat.blocker_assignments, info.object_id)@,
                    power,
                    g.objects[info.object_id].has(KeywordKind::Deathtouch),
                    trample_of(g.objects[info.object_id]),
                ),
            )
        }),
{
    reveal(attacker_collected);
    lemma_none_pending(g);
    let info = combat.attackers@[i as int];
    let power = striking_damage(g, info.object_id, sub_step, combat.first_strike_done);
    let after = attacker_collected(g, combat, sub_step, i);
    if power > 0 && after.waiting is None {
        let o = g.objects[info.object_id];
        let more = from_source(
            info.object_id,
            attacker_damage(
                g,
                info,
                listed_or_none(combat.blocker_assignments, info.object_id)@,
                power,
                o.has(KeywordKind::Deathtouch),
                trample_of(o),
            ),
        );
        lemma_with_pending(g, more);
    } else {
        assert(newly_pending(g, after.game) =~= Seq::<(ObjectId, DamageAssignment)>::empty());
        assert(pending_of(after.game) =~= pending_of(g) + newly_pending(g, after.game));
    }
}

/// In each sub-step a blocker on the battlefield deals its combat damage exactly when it strikes
/// in it: in the first with first strike or double strike, in the regular one unless it has first
/// strike without double strike and the first was done. All of its damage goes to the attackers
/// that it blocks; where it does not strike it deals none. Its combat damage is its power, or its
/// toughness where it assigns that instead, and none where it assigns none or the number is not
/// positive (CR 510.1a, CR 510.1d, CR 702.4b, CR 702.7b).
pub proof fn law_blocker_strikes(g: Game, sub_step: SubStep, b: int)
    requires
        g.combat is Some,
        damage_collected(g, sub_step).waiting is None,
        0 <= b < g.combat->0.blocker_to_attacker@.len(),
        g.combat->0.blocker_to_attacker@[b].1@.len() > 0,
        forall|i: int|
            0 <= i < g.combat->0.blocker_to_attacker@.len() && i != b ==> (
            #[trigger] g.combat->0.blocker_to_attacker@[i]).0
                != g.combat->0.blocker_to_attacker@[b].0,
        forall|i: int|
            0 <= i < g.combat->0.attackers@.len() ==> (
            #[trigger] g.combat->0.attackers@[i]).object_id
                != g.combat->0.blocker_to_attacker@[b].0,
        g.objects.contains_key(g.combat->0.blocker_to_attacker@[b].0),
    ensures
        ({
            let combat = g.combat->0;
            let id = combat.blocker_to_attacker@[b].0;
            let attackers = combat.blocker_to_attacker@[b].1@;
            let o = g.objects[id];
            let first = o.keywords@.contains(Keyword::FirstStrike);
            let double = o.keywords@.contains(Keyword::DoubleStrike);
            let strikes = match sub_step {
                SubStep::FirstStrike => first || double,
                SubStep::Regular => !(first && !double && combat.first_strike_done),
            };
            let number = if o.assigns_damage_from_toughness {
                o.toughness
            } else {
                o.power
            };
            let positive = number matches Some(v) && v > 0;
            let dealt = damage_from(
                newly_pending(g, damage_collected(g, sub_step).game),
                id,
            );
            &&& o.zone == Zone::Battlefield && strikes && !o.assigns_no_combat_damage && positive
                ==> total_assigned(dealt) == number->0
            &&& !(o.zone == Zone::Battlefield && strikes && !o.assigns_no_combat_damage && positive)
                ==> dealt.len() == 0
            &&& forall|k: int|
                0 <= k < dealt.len() ==> exists|a: int|
                    0 <= a < attackers.len() && (#[trigger] dealt[k]).target
                        == DamageTarget::Object(#[trigger] attackers[a])
            &&& dealt.len() > 0 ==> forall|a: int|
                1 <= a < attackers.len() && number->0 as int / attackers.len() as int > 0
                    ==> dealt.contains(
                    DamageAssignment {
                        target: DamageTarget::Object(#[trigger] attackers[a]),
                        amount: (number->0 as int / attackers.len() as int) as u32,
                    },
                )
            &&& dealt.len() > 0 ==> dealt.contains(
                DamageAssignment {
                    target: DamageTarget::Object(attackers[0]),
                    amount: (number->0 as int / attackers.len() as int + number->0 as int
                        % attackers.len() as int) as u32,
                },
            )
        }),
{
    let combat = g.combat->0;
    let id = combat.blocker_to_attacker@[b].0;
    let attackers = combat.blocker_to_attacker@[b].1@;
    let o = g.objects[id];
    law_keywords(o.keywords);
    let start = match combat.damage_step_index {
        None => 0,
        Some(i) => i as nat,
    };
    let n = combat.attackers@.len();
    lemma_attackers_other(g, combat, sub_step, start, n, id);
    let middle = attackers_collected(g, combat, sub_step, start, n).game;
    lemma_blockers_one(
        middle,
        combat.blocker_to_attacker,
        sub_step,
        combat.first_strike_done,
        b,
    );
    let end = blockers_collected(
        middle,
        combat.blocker_to_attacker,
        sub_step,
        combat.first_strike_done,
    );
    let last = damage_collected(g, sub_step).game;
    lemma_more_pending_twice(g, middle, end);
    lemma_damage_from_both(newly_pending(g, middle), newly_pending(middle, end), id);
    assert(pending_of(last) == pending_of(end));
    assert(newly_pending(g, last) == newly_pending(g, end));
    let dealt = damage_from(newly_pending(g, last), id);
    assert(dealt =~= damage_from(newly_pending(middle, end), id));
    assert(middle.objects == g.objects);
    let power = striking_damage(g, id, sub_step, combat.first_strike_done);
    assert(power == striking_damage(middle, id, sub_step, combat.first_strike_done));
    if power > 0 {
        let damage = blocker_damage(id, power, attackers, attackers.len());
        lemma_blocker_sources(id, power, attackers, attackers.len());
        lemma_damage_from_own(damage, id);
        law_blocker_deals_all(id, power, attackers);
        assert forall|k: int| 0 <= k < dealt.len() implies exists|a: int|
            0 <= a < attackers.len() && (#[trigger] dealt[k]).target == DamageTarget::Object(
                #[trigger] attackers[a],
            ) by {
            assert(dealt[k] == damage[k].1);
            lemma_blocker_targets(id, power, attackers, attackers.len(), k);
        }
        assert forall|x: DamageAssignment| damage.contains((id, x)) implies #[trigger] dealt.contains(
            x,
        ) by {
            let i = choose|i: int| 0 <= i < damage.len() && damage[i] == (id, x);
            assert(dealt[i] == x);
        }
        let p = power as int;
        let d = attackers.len() as int;
        assert(0 <= p / d <= p && 0 <= p % d <= p && p / d + p % d <= p && (d > 1 ==> p / d + p % d
            > 0)) by (nonlinear_arith)
            requires
                p > 0,
                d > 0,
        ;
        assert(attackers[0] == attackers[0]);
        assert forall|a: int| 1 <= a < attackers.len() && p / d > 0 implies dealt.contains(
            DamageAssignment {
                target: DamageTarget::Object(#[trigger] attackers[a]),
                amount: (p / d) as u32,
            },
        ) by {
            assert(blocker_share(power, attackers.len(), a) == (p / d) as u32);
        }
    }
}

proof fn lemma_blocker_targets(
    blocker: ObjectId,
    power: u32,
    attackers: Seq<ObjectId>,
    n: nat,
    k: int,
)
    requires
        0 <= k < blocker_damage(blocker, power, attackers, n).len(),
        n <= attackers.len(),
    ensures
        exists|a: int|
            0 <= a < n && blocker_damage(blocker, power, attackers, n)[k].1.target
                == DamageTarget::Object(#[trigger] attackers[a]),
    decreases n,
{
    if n > 0 {
        let before = blocker_damage(blocker, power, attackers, (n - 1) as nat);
        let now = blocker_damage(blocker, power, attackers, n);
        if k < before.len() {
            lemma_blocker_targets(blocker, power, attackers, (n - 1) as nat, k);
            assert(now[k] == before[k]);
        } else {
            assert(now[k].1.target == DamageTarget::Object(attackers[n - 1]));
        }
    }
}

/// What the attackers from `start` to `n` add for the one that stands at `k`, and nowhere else,
/// among them.
proof fn lemma_attackers_one(
    g: Game,
    combat: CombatState,
    sub_step: SubStep,
    start: nat,
    k: nat,
    n: nat,
)
    requires
        g.combat is Some,
        start <= k < n <= combat.attackers@.len(),
        attackers_collected(g, combat, sub_step, start, n).waiting is None,
        forall|i: int|
            start <= i < n && i != k ==> (#[trigger] combat.attackers@[i]).object_id
                != combat.attackers@[k as int].object_id,
    ensures
        ({
            let info = combat.attackers@[k as int];
            let here = attackers_collected(g, combat, sub_step, start, k).game;
            let end = attackers_collected(g, combat, sub_step, start, n).game;
            let power = striking_damage(g, info.object_id, sub_step, combat.first_strike_done);
            let o = g.objects[info.object_id];
            &&& only_more_pending(g, here)
            &&& only_more_pending(g, end)
            &&& power == 0 ==> damage_from(newly_pending(g, end), info.object_id) == Seq::<
                DamageAssignment,
            >::empty()
            &&& power > 0 ==> damage_from(newly_pending(g, end), info.object_id)
                == attacker_damage(
                here,
                info,
                listed_or_none(combat.blocker_assignments, info.object_id)@,
                power,
                o.has(KeywordKind::Deathtouch),
                trample_of(o),
            )
            &&& power > 0 ==> !division_is_chosen(o, combat, info)
        }),
    decreases n,
{
    let info = combat.attackers@[k as int];
    let id = info.object_id;
    let before = attackers_collected(g, combat, sub_step, start, (n - 1) as nat);
    let after = attacker_collected(before.game, combat, sub_step, (n - 1) as nat).game;
    let more = newly_pending(before.game, after);
    if k < n - 1 {
        lemma_attackers_one(g, combat, sub_step, start, k, (n - 1) as nat);
        lemma_attacker_step(before.game, combat, sub_step, (n - 1) as nat);
        lemma_damage_from_other(more, id);
    } else {
        lemma_attackers_other(g, combat, sub_step, start, (n - 1) as nat, id);
        lemma_attacker_step(before.game, combat, sub_step, (n - 1) as nat);
        reveal(attacker_collected);
        lemma_damage_from_own(more, id);
    }
    lemma_more_pending_twice(g, before.game, after);
    lemma_damage_from_both(newly_pending(g, before.game), more, id);
    let own = damage_from(more, id);
    let earlier = damage_from(newly_pending(g, before.game), id);
    if k < n - 1 {
        assert(earlier + own =~= earlier);
    } else {
        assert(earlier + own =~= own);
        let power = striking_damage(g, id, sub_step, combat.first_strike_done);
        if power > 0 {
            let damage = attacker_damage(
                before.game,
                info,
                listed_or_none(combat.blocker_assignments, id)@,
                power,
                g.objects[id].has(KeywordKind::Deathtouch),
                trample_of(g.objects[id]),
            );
            assert(own =~= damage);
        }
    }
}

/// How much damage is lethal to a creature (CR 702.2c): with deathtouch one point, else what its
/// toughness leaves after the damage it has taken.
pub proof fn law_lethal(g: Game, id: ObjectId, deathtouch: bool)
    ensures
        ({
            let lethal = lethal_damage(g, id, deathtouch);
            let o = g.objects[id];
            &&& !g.objects.contains_key(id) ==> lethal == 1
            &&& g.objects.contains_key(id) && deathtouch ==> lethal == 1
            &&& g.objects.contains_key(id) && !deathtouch && o.toughness is Some
                && o.toughness->0 >= o.damage_marked ==> lethal == o.toughness->0 - o.damage_marked
            &&& g.objects.contains_key(id) && !deathtouch && (o.toughness is None
                || o.toughness->0 < o.damage_marked) ==> lethal == 0
        }),
{
}

/// What is collected for the attacker at `k`.
proof fn lemma_attacker_dealt(g: Game, sub_step: SubStep, k: int, start: int) -> (here: Game)
    requires
        g.combat is Some,
        start == (match g.combat->0.damage_step_index {
            None => 0int,
            Some(i) => i as int,
        }),
        start <= k < g.combat->0.attackers@.len(),
        damage_collected(g, sub_step).waiting is None,
        forall|i: int|
            0 <= i < g.combat->0.attackers@.len() && i != k ==> (
            #[trigger] g.combat->0.attackers@[i]).object_id
                != g.combat->0.attackers@[k].object_id,
        forall|i: int|
            0 <= i < g.combat->0.blocker_to_attacker@.len() ==> (
            #[trigger] g.combat->0.blocker_to_attacker@[i]).0
                != g.combat->0.attackers@[k].object_id,
    ensures
        ({
            let combat = g.combat->0;
            let info = combat.attackers@[k];
            let o = g.objects[info.object_id];
            let power = striking_damage(g, info.object_id, sub_step, combat.first_strike_done);
            let dealt = damage_from(
                newly_pending(g, damage_collected(g, sub_step).game),
                info.object_id,
            );
            &&& here.objects == g.objects
            &&& power == 0 ==> dealt.len() == 0
            &&& power > 0 ==> !division_is_chosen(o, combat, info) && dealt == attacker_damage(
                here,
                info,
                listed_or_none(combat.blocker_assignments, info.object_id)@,
                power,
                o.has(KeywordKind::Deathtouch),
                trample_of(o),
            )
        }),
{
    let combat = g.combat->0;
    let id = combat.attackers@[k].object_id;
    let n = combat.attackers@.len();
    lemma_attackers_one(g, combat, sub_step, start as nat, k as nat, n);
    let here = attackers_collected(g, combat, sub_step, start as nat, k as nat).game;
    let middle = attackers_collected(g, combat, sub_step, start as nat, n).game;
    lemma_blockers_other(
        middle,
        combat.blocker_to_attacker,
        sub_step,
        combat.first_strike_done,
        id,
    );
    let end = blockers_collected(
        middle,
        combat.blocker_to_attacker,
        sub_step,
        combat.first_strike_done,
    );
    let last = damage_collected(g, sub_step).game;
    lemma_more_pending_twice(g, middle, end);
    lemma_damage_from_both(newly_pending(g, middle), newly_pending(middle, end), id);
    assert(newly_pending(g, last) == newly_pending(g, end));
    let dealt = damage_from(newly_pending(g, last), id);
    assert(dealt =~= damage_from(newly_pending(g, middle), id));
    here
}

/// In each sub-step an attacker on the battlefield deals its combat damage exactly when it strikes
/// in it, as a blocker does. Unblocked, all of it goes to what it attacks; blocked by one
/// creature, all of it to that creature, but that with trample what is more than lethal to the
/// blocker goes on; blocked by a creature that is gone, it goes on with trample and is lost
/// without (CR 510.1b, CR 510.1c, CR 702.19b).
pub proof fn law_attacker_strikes(g: Game, sub_step: SubStep, k: int, start: int)
    requires
        g.combat is Some,
        start == (match g.combat->0.damage_step_index {
            None => 0int,
            Some(i) => i as int,
        }),
        start <= k < g.combat->0.attackers@.len(),
        damage_collected(g, sub_step).waiting is None,
        forall|i: int|
            0 <= i < g.combat->0.attackers@.len() && i != k ==> (
            #[trigger] g.combat->0.attackers@[i]).object_id
                != g.combat->0.attackers@[k].object_id,
        forall|i: int|
            0 <= i < g.combat->0.blocker_to_attacker@.len() ==> (
            #[trigger] g.combat->0.blocker_to_attacker@[i]).0
                != g.combat->0.attackers@[k].object_id,
        g.objects.contains_key(g.combat->0.attackers@[k].object_id),
    ensures
        ({
            let combat = g.combat->0;
            let info = combat.attackers@[k];
            let id = info.object_id;
            let o = g.objects[id];
            let first = o.keywords@.contains(Keyword::FirstStrike);
            let double = o.keywords@.contains(Keyword::DoubleStrike);
            let strikes = match sub_step {
                SubStep::FirstStrike => first || double,
                SubStep::Regular => !(first && !double && combat.first_strike_done),
            };
            let over = o.keywords@.contains(Keyword::TrampleOverPlaneswalkers);
            let tramples = o.keywords@.contains(Keyword::Trample) || over;
            let number = if o.assigns_damage_from_toughness {
                o.toughness
            } else {
                o.power
            };
            let positive = number matches Some(v) && v > 0;
            let amount = number->0 as u32;
            let blockers = listed_or_none(combat.blocker_assignments, id)@;
            let lethal = lethal_damage(g, blockers[0], o.keywords@.contains(Keyword::Deathtouch));
            let dealt = damage_from(newly_pending(g, damage_collected(g, sub_step).game), id);
            if !(o.zone == Zone::Battlefield && strikes && !o.assigns_no_combat_damage && positive) {
                dealt.len() == 0
            } else {
                &&& blockers.len() <= 1
                &&& blockers.len() == 0 && !info.blocked ==> match info.attack_target {
                    AttackTarget::Player(p) => dealt == seq![
                        DamageAssignment { target: DamageTarget::Player(p), amount },
                    ],
                    AttackTarget::Planeswalker(pw) => if g.objects.contains_key(pw)
                        && g.objects[pw].zone == Zone::Battlefield {
                        dealt == seq![
                            DamageAssignment { target: DamageTarget::Object(pw), amount },
                        ]
                    } else if over {
                        dealt == seq![
                            DamageAssignment {
                                target: DamageTarget::Player(info.defending_player),
                                amount,
                            },
                        ]
                    } else {
                        dealt.len() == 0
                    },
                    AttackTarget::Battle(battle) => if g.objects.contains_key(battle)
                        && g.objects[battle].zone == Zone::Battlefield {
                        dealt == seq![
                            DamageAssignment { target: DamageTarget::Object(battle), amount },
                        ]
                    } else {
                        dealt.len() == 0
                    },
                }
                &&& blockers.len() == 0 && info.blocked && !tramples ==> dealt.len() == 0
                &&& blockers.len() == 0 && info.blocked && tramples ==> (
                info.attack_target matches AttackTarget::Player(p) ==> dealt == seq![
                    DamageAssignment { target: DamageTarget::Player(p), amount },
                ])
                &&& blockers.len() == 1 && !tramples ==> dealt == seq![
                    DamageAssignment { target: DamageTarget::Object(blockers[0]), amount },
                ]
                &&& blockers.len() == 1 && tramples && amount <= lethal ==> dealt == seq![
                    DamageAssignment { target: DamageTarget::Object(blockers[0]), amount },
                ]
                &&& blockers.len() == 1 && tramples && amount > lethal ==> (
                info.attack_target matches AttackTarget::Player(p) ==> dealt == seq![
                    DamageAssignment { target: DamageTarget::Object(blockers[0]), amount: lethal },
                    DamageAssignment {
                        target: DamageTarget::Player(p),
                        amount: (amount - lethal) as u32,
                    },
                ])
            }
        }),
{
    let combat = g.combat->0;
    let info = combat.attackers@[k];
    let id = info.object_id;
    let o = g.objects[id];
    law_keywords(o.keywords);
    let here = lemma_attacker_dealt(g, sub_step, k, start);
    let power = striking_damage(g, id, sub_step, combat.first_strike_done);
    if power > 0 {
        let blockers = listed_or_none(combat.blocker_assignments, id)@;
        let deathtouch = o.has(KeywordKind::Deathtouch);
        let dealt = attacker_damage(here, info, blockers, power, deathtouch, trample_of(o));
        let lethal = lethal_damage(g, blockers[0], deathtouch);
        assert(lethal_damage(here, blockers[0], deathtouch) == lethal);
        if blockers.len() == 1 && trample_of(o) is Some && power > lethal {
            if let AttackTarget::Player(p) = info.attack_target {
                assert(dealt =~= seq![
                    DamageAssignment { target: DamageTarget::Object(blockers[0]), amount: lethal },
                    DamageAssignment {
                        target: DamageTarget::Player(p),
                        amount: (power - lethal) as u32,
                    },
                ]);
            }
        }
        if blockers.len() == 1 && trample_of(o) is Some && power <= lethal {
            assert(dealt =~= seq![
                DamageAssignment { target: DamageTarget::Object(blockers[0]), amount: power },
            ]);
        }
    }
}

/// What stands to an attacker's controller to decide (CR 510.1c): the division of the damage
/// among two or more blockers; and for an attacker that may assign its damage as though it
/// weren't blocked, whether it does, where it is blocked and either has a blocker left or has no
/// trample.
pub proof fn law_division_asked(g: Game, combat: CombatState, sub_step: SubStep, i: nat)
    requires
        g.combat == Some(combat),
        i < combat.attackers@.len(),
        i <= usize::MAX,
    ensures
        ({
            let info = combat.attackers@[i as int];
            let o = g.objects[info.object_id];
            let r = attacker_collected(g, combat, sub_step, i);
            let blockers = listed_or_none(combat.blocker_assignments, info.object_id)@;
            let tramples = o.keywords@.contains(Keyword::Trample) || o.keywords@.contains(
                Keyword::TrampleOverPlaneswalkers,
            );
            let deathtouch = o.keywords@.contains(Keyword::Deathtouch);
            let asked = if o.assigns_damage_as_though_unblocked && info.blocked {
                blockers.len() > 0 || !tramples
            } else {
                blockers.len() >= 2
            };
            &&& !g.objects.contains_key(info.object_id) ==> r.waiting is None
            &&& g.objects.contains_key(info.object_id) ==> (r.waiting is Some <==> asked
                && striking_damage(g, info.object_id, sub_step, combat.first_strike_done) > 0)
            &&& r.waiting matches Some(w) ==> {
                &&& r.game.combat == Some(
                    CombatState { damage_step_index: Some(i as usize), ..combat },
                )
                &&& w matches WaitingFor::AssignCombatDamage {
                    player,
                    attacker_id,
                    total_damage,
                    blockers: slots,
                    assignment_modes,
                    trample,
                    defending_player,
                    attack_target,
                    ..
                } && {
                    &&& player == o.controller
                    &&& attacker_id == info.object_id
                    &&& total_damage == combat_damage_of(o)
                    &&& slots@.len() == blockers.len()
                    &&& forall|j: int|
                        0 <= j < blockers.len() ==> (#[trigger] slots@[j]).blocker_id == blockers[j]
                            && slots@[j].lethal_minimum == lethal_damage(
                            g,
                            blockers[j],
                            deathtouch,
                        )
                    &&& trample is Some <==> tramples
                    &&& trample == Some(TrampleKind::OverPlaneswalkers) <==> o.keywords@.contains(
                        Keyword::TrampleOverPlaneswalkers,
                    )
                    &&& defending_player == info.defending_player
                    &&& attack_target == info.attack_target
                    &&& assignment_modes@.contains(CombatDamageAssignmentMode::Normal)
                    &&& assignment_modes@.contains(CombatDamageAssignmentMode::AsThoughUnblocked)
                        <==> o.assigns_damage_as_though_unblocked && info.blocked
                }
            }
        }),
{
    reveal(attacker_collected);
    let info = combat.attackers@[i as int];
    let o = g.objects[info.object_id];
    law_keywords(o.keywords);
    let blockers = listed_or_none(combat.blocker_assignments, info.object_id)@;
    let modes = assignment_modes(o, info.blocked, blockers.len() > 0, trample_of(o));
    lemma_items_of(modes);
    lemma_items_of(damage_slots(g, blockers, o.has(KeywordKind::Deathtouch)));
    assert(modes[0] == CombatDamageAssignmentMode::Normal);
    if modes.len() > 1 {
        assert(modes[1] == CombatDamageAssignmentMode::AsThoughUnblocked);
    }
}

/// A collection stops with a choice exactly when some attacker that is still to be looked at and
/// that strikes leaves its controller one (CR 510.1c).
pub proof fn law_division_stops(g: Game, sub_step: SubStep, start: int)
    requires
        g.combat is Some,
        start == (match g.combat->0.damage_step_index {
            None => 0int,
            Some(i) => i as int,
        }),
    ensures
        damage_collected(g, sub_step).waiting is Some <==> exists|k: int|
            start <= k < g.combat->0.attackers@.len() && #[trigger] leaves_choice(g, sub_step, k),
{
    lemma_division_stops(g, g.combat->0, sub_step, start as nat, g.combat->0.attackers@.len());
}

/// Whether an attacker strikes in a sub-step and leaves its controller a choice.
pub open spec fn leaves_choice(g: Game, sub_step: SubStep, k: int) -> bool {
    let combat = g.combat->0;
    let info = combat.attackers@[k];
    let o = g.objects[info.object_id];
    let blockers = listed_or_none(combat.blocker_assignments, info.object_id)@;
    let first = o.keywords@.contains(Keyword::FirstStrike);
    let double = o.keywords@.contains(Keyword::DoubleStrike);
    let number = if o.assigns_damage_from_toughness {
        o.toughness
    } else {
        o.power
    };
    &&& g.objects.contains_key(info.object_id)
    &&& o.zone == Zone::Battlefield
    &&& !o.assigns_no_combat_damage
    &&& number matches Some(v) && v > 0
    &&& match sub_step {
        SubStep::FirstStrike => first || double,
        SubStep::Regular => !(first && !double && combat.first_strike_done),
    }
    &&& if o.assigns_damage_as_though_unblocked && info.blocked {
        blockers.len() > 0 || !(o.keywords@.contains(Keyword::Trample) || o.keywords@.contains(
            Keyword::TrampleOverPlaneswalkers,
        ))
    } else {
        blockers.len() >= 2
    }
}

proof fn lemma_division_stops(
    g: Game,
    combat: CombatState,
    sub_step: SubStep,
    start: nat,
    n: nat,
)
    requires
        g.combat == Some(combat),
        n <= combat.attackers@.len(),
    ensures
        only_more_pending(g, attackers_collected(g, combat, sub_step, start, n).game),
        attackers_collected(g, combat, sub_step, start, n).waiting is Some <==> exists|k: int|
            start <= k < n && #[trigger] leaves_choice(g, sub_step, k),
    decreases n,
{
    if n <= start {
        lemma_none_pending(g);
    } else {
        lemma_division_stops(g, combat, sub_step, start, (n - 1) as nat);
        let before = attackers_collected(g, combat, sub_step, start, (n - 1) as nat);
        if before.waiting is None {
            lemma_attacker_step(before.game, combat, sub_step, (n - 1) as nat);
            let after = attacker_collected(before.game, combat, sub_step, (n - 1) as nat);
            lemma_more_pending_twice(g, before.game, after.game);
            let info = combat.attackers@[n - 1];
            let o = g.objects[info.object_id];
            law_keywords(o.keywords);
            reveal(attacker_collected);
            assert(before.game.objects == g.objects);
            assert(leaves_choice(g, sub_step, n - 1) <==> after.waiting is Some);
        }
    }
}

/// The combat damage of a creature: its power, or its toughness where it assigns damage by that,
/// none where the number is not positive, and none where it assigns no combat damage.
pub proof fn law_combat_damage(o: GameObject)
    ensures
        o.assigns_no_combat_damage ==> combat_damage_of(o) == 0,
        !o.assigns_no_combat_damage && !o.assigns_damage_from_toughness && o.power is Some
            && o.power->0 >= 0 ==> combat_damage_of(o) == o.power->0,
        !o.assigns_no_combat_damage && o.assigns_damage_from_toughness && o.toughness is Some
            && o.toughness->0 >= 0 ==> combat_damage_of(o) == o.toughness->0,
        !o.assigns_damage_from_toughness && (o.power is None || o.power->0 < 0)
            ==> combat_damage_of(o) == 0,
        o.assigns_damage_from_toughness && (o.toughness is None || o.toughness->0 < 0)
            ==> combat_damage_of(o) == 0,
{
}

proof fn lemma_attackers_strike_first(g: Game, attackers: List<AttackerInfo>)
    ensures
        attackers_strike_first(g, attackers) <==> exists|i: int|
            0 <= i < attackers@.len() && strikes_first(g, (#[trigger] attackers@[i]).object_id),
    decreases attackers,
{
    if attackers.node is Some {
        let rest = list_rest(attackers);
        lemma_attackers_strike_first(g, rest);
        let items = attackers@;
        let tail = rest@;
        assert(items[0] == *attackers.node->0.item);
        assert(items.len() == tail.len() + 1);
        assert forall|i: int| 0 < i < items.len() implies #[trigger] items[i] == tail[i - 1] by {}
        if attackers_strike_first(g, rest) {
            let i = choose|i: int|
                0 <= i < tail.len() && strikes_first(g, (#[trigger] tail[i]).object_id);
            assert(items[i + 1] == tail[i]);
        }
    }
}

proof fn lemma_blockers_strike_first(g: Game, blockers: List<(ObjectId, List<ObjectId>)>)
    ensures
        blockers_strike_first(g, blockers) <==> exists|i: int|
            0 <= i < blockers@.len() && strikes_first(g, (#[trigger] blockers@[i]).0),
    decreases blockers,
{
    if blockers.node is Some {
        let rest = list_rest(blockers);
        lemma_blockers_strike_first(g, rest);
        let items = blockers@;
        let tail = rest@;
        assert(items[0] == *blockers.node->0.item);
        assert(items.len() == tail.len() + 1);
        assert forall|i: int| 0 < i < items.len() implies #[trigger] items[i] == tail[i - 1] by {}
        if blockers_strike_first(g, rest) {
            let i = choose|i: int| 0 <= i < tail.len() && strikes_first(g, (#[trigger] tail[i]).0);
            assert(items[i + 1] == tail[i]);
        }
    }
}

/// Whether an object is known and has first strike or double strike.
pub open spec fn has_first_strike(g: Game, id: ObjectId) -> bool {
    g.objects.contains_key(id) && (g.objects[id].keywords@.contains(Keyword::FirstStrike)
        || g.objects[id].keywords@.contains(Keyword::DoubleStrike))
}

/// There is a first-strike sub-step exactly when it was not done and an attacker or a blocker has
/// first strike or double strike. Where there is none, or once it is done, the regular sub-step
/// alone is resolved, and once that is done nothing is (CR 702.7b).
pub proof fn law_sub_steps(p: Play)
    requires
        p.game.combat is Some,
    ensures
        ({
            let g = p.game;
            let combat = g.combat->0;
            let due = !combat.first_strike_done && ((exists|i: int|
                0 <= i < combat.attackers@.len() && has_first_strike(
                    g,
                    (#[trigger] g.combat->0.attackers@[i]).object_id,
                )) || (exists|i: int|
                0 <= i < combat.blocker_to_attacker@.len() && has_first_strike(
                    g,
                    (#[trigger] g.combat->0.blocker_to_attacker@[i]).0,
                )));
            let first = step_resolved(p, SubStep::FirstStrike);
            &&& combat.regular_damage_done ==> combat_damage_resolved(p).play == p
                && combat_damage_resolved(p).waiting is None
            &&& !combat.regular_damage_done && !due ==> combat_damage_resolved(p)
                == step_resolved(p, SubStep::Regular)
            &&& !combat.regular_damage_done && due && first.waiting is Some
                ==> combat_damage_resolved(p) == first
            &&& !combat.regular_damage_done && due && first.waiting is None
                ==> combat_damage_resolved(p) == step_resolved(first.play, SubStep::Regular)
        }),
{
    let g = p.game;
    let combat = g.combat->0;
    lemma_attackers_strike_first(g, combat.attackers);
    lemma_blockers_strike_first(g, combat.blocker_to_attacker);
    assert forall|id: ObjectId| #[trigger] strikes_first(g, id) == has_first_strike(g, id) by {
        law_keywords(g.objects[id].keywords);
    }
}

} // verus!
