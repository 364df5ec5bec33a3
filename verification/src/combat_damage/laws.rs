//! What holds of combat damage as a whole: how much is assigned, and that it is dealt once.

use crate::ability::TokenRider;
use crate::combat::{AttackerInfo, CombatState, DamageAssignment, DamageTarget, TrampleKind};
use crate::combat_damage::assignment::{
    all_to, attacker_damage, blocker_damage, blocker_share, excess_over_planeswalker,
    goes_over_planeswalker, lethal_damage, loyalty_threshold, strikes_in, striking_damage,
    trampling_over, SubStep,
};
use crate::combat_damage::collection::{
    attacker_collected, attackers_collected, blockers_collected, damage_collected, with_pending,
};
use crate::combat_damage::dealing::{
    amounts_with, batch_of, combat_damage_dealt, commander_damage_with, entries_dealt, entry_dealt,
    gates_told, player_damage_events, proposed, rider_fired, riders_fired, shield_at, shielded,
    target_of, totals_with, BatchEntry, Dealing, PlayerDamage,
};
use crate::combat_damage::{
    actions_settled, combat_damage_resolved, first_strike_due, pending_of, pending_taken, step_done,
    step_resolved,
};
use crate::damage::{damage_dealt, life_changed, permanent_hit, player_hit};
use crate::effects::token::{
    token_count, token_created, token_kind, tokens_created, tokens_made, TokenKind,
};
use crate::elimination::laws::{lemma_same_seats, living_count};
use crate::events::GameEvent;
use crate::ids::{AttackTarget, KeywordKind, ObjectId, PlayerId, TargetRef};
use crate::layers::clamped;
use crate::list::{list_of, list_rest, List};
use crate::object::{capped, sat_sum, GameObject};
use crate::replacement::{
    prevention_tally, shields_against, tally_with, ProposedDamage, ReplacementId,
};
use crate::sba::{actions_performed, law_actions_end, lemma_actions_keep_combat};
use crate::state::{CommanderDamageEntry, Game, Play};
use crate::triggers::{law_triggers_keep_table, triggers_processed};
use crate::zones::put_in;
use std::rc::Rc;
use vstd::prelude::*;

verus! {

/// How much damage some assignments come to.
pub open spec fn total_assigned(damage: Seq<DamageAssignment>) -> nat
    decreases damage.len(),
{
    if damage.len() == 0 {
        0
    } else {
        total_assigned(damage.drop_last()) + damage.last().amount as nat
    }
}

/// How much damage some assignments come to, whatever deals it.
pub open spec fn total_of(damage: Seq<(ObjectId, DamageAssignment)>) -> nat
    decreases damage.len(),
{
    if damage.len() == 0 {
        0
    } else {
        total_of(damage.drop_last()) + damage.last().1.amount as nat
    }
}

/// Among several attackers a blocker's damage is split evenly, but that the first takes what is
/// left over, which is less than one point for each attacker.
pub proof fn law_even_shares(power: u32, n: nat, i: int, j: int)
    requires
        1 <= i < n,
        1 <= j < n,
    ensures
        blocker_share(power, n, i) == blocker_share(power, n, j),
        blocker_share(power, n, i) <= blocker_share(power, n, 0) < blocker_share(power, n, i) + n,
{
    let p = power as int;
    let d = n as int;
    assert(0 <= p / d && 0 <= p % d < d && p / d + p % d <= p) by (nonlinear_arith)
        requires
            p >= 0,
            d > 0,
    ;
}

proof fn lemma_shares_so_far(blocker: ObjectId, power: u32, attackers: Seq<ObjectId>, n: nat)
    requires
        n <= attackers.len(),
    ensures
        total_of(blocker_damage(blocker, power, attackers, n)) == if n == 0 {
            0
        } else {
            n * (power as int / attackers.len() as int) + power as int % attackers.len() as int
        },
    decreases n,
{
    if n > 0 {
        lemma_shares_so_far(blocker, power, attackers, (n - 1) as nat);
        let p = power as int;
        let d = attackers.len() as int;
        let before = blocker_damage(blocker, power, attackers, (n - 1) as nat);
        let amount = blocker_share(power, attackers.len(), n - 1);
        assert(0 <= p / d && 0 <= p % d && p / d + p % d <= p) by (nonlinear_arith)
            requires
                p >= 0,
                d > 0,
        ;
        assert(n * (p / d) == (n - 1) * (p / d) + p / d) by (nonlinear_arith);
        if amount != 0 || attackers.len() == 1 {
            let here = (
                blocker,
                DamageAssignment { target: DamageTarget::Object(attackers[n - 1]), amount },
            );
            assert(before.push(here).drop_last() =~= before);
        }
    }
}

/// A blocker deals all of its damage to the attackers that it blocks.
pub proof fn law_blocker_deals_all(blocker: ObjectId, power: u32, attackers: Seq<ObjectId>)
    requires
        attackers.len() > 0,
    ensures
        total_of(blocker_damage(blocker, power, attackers, attackers.len())) == power,
{
    lemma_shares_so_far(blocker, power, attackers, attackers.len());
    let p = power as int;
    let d = attackers.len() as int;
    assert(d * (p / d) + p % d == p) by (nonlinear_arith)
        requires
            d > 0,
    ;
}

proof fn lemma_total_of_one(one: DamageAssignment)
    ensures
        total_assigned(seq![one]) == one.amount,
{
    assert(seq![one].drop_last() =~= Seq::<DamageAssignment>::empty());
    assert(total_assigned(Seq::<DamageAssignment>::empty()) == 0);
}

proof fn lemma_total_of_both(a: Seq<DamageAssignment>, b: Seq<DamageAssignment>)
    ensures
        total_assigned(a + b) == total_assigned(a) + total_assigned(b),
    decreases b.len(),
{
    if b.len() == 0 {
        assert(a + b =~= a);
    } else {
        lemma_total_of_both(a, b.drop_last());
        assert((a + b).drop_last() =~= a + b.drop_last());
    }
}

proof fn lemma_all_to(target: Option<DamageTarget>, amount: u32)
    ensures
        total_assigned(all_to(target, amount)) == if target is Some {
            amount as nat
        } else {
            0
        },
{
    if let Some(target) = target {
        lemma_total_of_one(DamageAssignment { target, amount });
    }
}

proof fn lemma_trampling_total(
    g: Game,
    info: AttackerInfo,
    excess: u32,
    trample: Option<TrampleKind>,
)
    ensures
        total_assigned(trampling_over(g, info, excess, trample)) == if info.damage_target(
            g,
            goes_over_planeswalker(info, trample),
        ) is Some {
            excess as nat
        } else {
            0
        },
{
    if goes_over_planeswalker(info, trample) {
        let loyalty = match info.attack_target {
            AttackTarget::Planeswalker(id) => loyalty_threshold(g, id),
            _ => 0,
        };
        let to_planeswalker = if excess < loyalty {
            excess
        } else {
            loyalty
        };
        let to_player = (excess - to_planeswalker) as u32;
        let first = if to_planeswalker > 0 {
            all_to(info.damage_target(g, true), to_planeswalker)
        } else {
            seq![]
        };
        let one = DamageAssignment {
            target: DamageTarget::Player(info.defending_player),
            amount: to_player,
        };
        let second = if to_player > 0 {
            seq![one]
        } else {
            seq![]
        };
        lemma_all_to(info.damage_target(g, true), to_planeswalker);
        lemma_total_of_one(one);
        lemma_total_of_both(first, second);
        assert(excess_over_planeswalker(g, info, excess) == first + second);
    } else {
        lemma_all_to(info.damage_target(g, false), excess);
    }
}

/// An attacker never assigns more damage than it deals. It assigns all of it to a blocker, and
/// also past a blocker or where there is none, as long as what it attacks is still there; only a
/// blocked attacker without trample whose blocker is gone assigns none (CR 509.1h, CR 510.1c).
pub proof fn law_attacker_assigns(
    g: Game,
    info: AttackerInfo,
    blockers: Seq<ObjectId>,
    power: u32,
    deathtouch: bool,
    trample: Option<TrampleKind>,
)
    ensures
        ({
            let total = total_assigned(
                attacker_damage(g, info, blockers, power, deathtouch, trample),
            );
            &&& total <= power
            &&& blockers.len() > 0 && trample is None ==> total == power
            &&& blockers.len() == 0 && info.blocked && trample is None ==> total == 0
            &&& (blockers.len() == 0 && !info.blocked || trample is Some) && info.damage_target(
                g,
                trample == Some(TrampleKind::OverPlaneswalkers),
            ) is Some ==> total == power
        }),
{
    let damage = attacker_damage(g, info, blockers, power, deathtouch, trample);
    if blockers.len() == 0 {
        if !info.blocked {
            lemma_all_to(
                info.damage_target(g, trample == Some(TrampleKind::OverPlaneswalkers)),
                power,
            );
        } else if trample is Some {
            lemma_trampling_total(g, info, power, trample);
        }
    } else if trample is None {
        lemma_total_of_one(
            DamageAssignment { target: DamageTarget::Object(blockers[0]), amount: power },
        );
    } else {
        let lethal = lethal_damage(g, blockers[0], deathtouch);
        let to_blocker = if power < lethal {
            power
        } else {
            lethal
        };
        let excess = (power - to_blocker) as u32;
        let one = DamageAssignment {
            target: DamageTarget::Object(blockers[0]),
            amount: to_blocker,
        };
        let rest = if excess > 0 {
            trampling_over(g, info, excess, trample)
        } else {
            seq![]
        };
        lemma_total_of_one(one);
        lemma_trampling_total(g, info, excess, trample);
        lemma_total_of_both(seq![one], rest);
        assert(damage == seq![one] + rest);
    }
}

/// Nothing goes past a blocker before the blocker is assigned lethal damage (CR 702.19b).
pub proof fn law_lethal_first(
    g: Game,
    info: AttackerInfo,
    blockers: Seq<ObjectId>,
    power: u32,
    deathtouch: bool,
    trample: Option<TrampleKind>,
)
    requires
        blockers.len() > 0,
        attacker_damage(g, info, blockers, power, deathtouch, trample).len() > 1,
    ensures
        attacker_damage(g, info, blockers, power, deathtouch, trample)[0] == (DamageAssignment {
            target: DamageTarget::Object(blockers[0]),
            amount: lethal_damage(g, blockers[0], deathtouch),
        }),
{
}

/// With trample over planeswalkers, the planeswalker takes what it has loyalty left before its
/// defender takes anything, and never more (CR 702.19c).
pub proof fn law_loyalty_first(g: Game, info: AttackerInfo, planeswalker: ObjectId, excess: u32)
    requires
        info.attack_target == AttackTarget::Planeswalker(planeswalker),
        g.on_battlefield(planeswalker),
    ensures
        ({
            let damage = excess_over_planeswalker(g, info, excess);
            let loyalty = loyalty_threshold(g, planeswalker);
            forall|i: int|
                0 <= i < damage.len() ==> match (#[trigger] damage[i]).target {
                    DamageTarget::Object(id) => id == planeswalker && damage[i].amount <= loyalty,
                    DamageTarget::Player(p) => p == info.defending_player && damage[i].amount
                        + loyalty == excess,
                }
        }),
{
}

/// First strike deals in the first sub-step alone, double strike in both, and a creature with
/// neither in the regular one alone (CR 702.4b, CR 702.7b).
pub proof fn law_strikes(o: GameObject)
    ensures
        o.has(KeywordKind::DoubleStrike) ==> strikes_in(o, SubStep::FirstStrike, false)
            && strikes_in(o, SubStep::Regular, true),
        o.has(KeywordKind::FirstStrike) && !o.has(KeywordKind::DoubleStrike) ==> strikes_in(
            o,
            SubStep::FirstStrike,
            false,
        ) && !strikes_in(o, SubStep::Regular, true),
        !o.has(KeywordKind::FirstStrike) && !o.has(KeywordKind::DoubleStrike) ==> !strikes_in(
            o,
            SubStep::FirstStrike,
            false,
        ) && strikes_in(o, SubStep::Regular, true) && strikes_in(o, SubStep::Regular, false),
{
}

/// Whether two games are in the same stage of the same combat.
pub open spec fn same_stage(a: Game, b: Game) -> bool {
    match (a.combat, b.combat) {
        (Some(x), Some(y)) => x.first_strike_done == y.first_strike_done && x.regular_damage_done
            == y.regular_damage_done,
        _ => a.combat == b.combat,
    }
}

proof fn lemma_attackers_collected(
    g: Game,
    combat: CombatState,
    sub_step: SubStep,
    start: nat,
    n: nat,
)
    ensures
        same_stage(g, attackers_collected(g, combat, sub_step, start, n).game),
    decreases n,
{
    if n > start {
        lemma_attackers_collected(g, combat, sub_step, start, (n - 1) as nat);
        reveal(attacker_collected);
    }
}

proof fn lemma_blockers_collected(
    g: Game,
    blockers: List<(ObjectId, List<ObjectId>)>,
    sub_step: SubStep,
    first_strike_done: bool,
)
    ensures
        same_stage(g, blockers_collected(g, blockers, sub_step, first_strike_done)),
    decreases blockers,
{
    if blockers.node is Some {
        let item = blockers.node->0.item;
        let power = striking_damage(g, item.0, sub_step, first_strike_done);
        let next = if power == 0 {
            g
        } else {
            with_pending(g, blocker_damage(item.0, power, item.1@, item.1@.len()))
        };
        lemma_blockers_collected(next, list_rest(blockers), sub_step, first_strike_done);
    }
}

/// Collecting damage deals none of it: it stays in the same stage of the combat.
proof fn lemma_collected(g: Game, sub_step: SubStep)
    ensures
        same_stage(g, damage_collected(g, sub_step).game),
{
    if let Some(combat) = g.combat {
        let start = match combat.damage_step_index {
            None => 0,
            Some(i) => i as nat,
        };
        let n = combat.attackers@.len();
        lemma_attackers_collected(g, combat, sub_step, start, n);
        lemma_blockers_collected(
            attackers_collected(g, combat, sub_step, start, n).game,
            combat.blocker_to_attacker,
            sub_step,
            combat.first_strike_done,
        );
    }
}

proof fn lemma_entries_keep_combat(
    d: Dealing,
    batch: Seq<BatchEntry>,
    shields: Seq<Option<ReplacementId>>,
    n: nat,
)
    ensures
        entries_dealt(d, batch, shields, n).play.game.combat == d.play.game.combat,
    decreases n,
{
    if n > 0 {
        lemma_entries_keep_combat(d, batch, shields, (n - 1) as nat);
        reveal(entry_dealt);
        reveal(damage_dealt);
        reveal(player_hit);
        reveal(permanent_hit);
        reveal(life_changed);
    }
}

proof fn lemma_tokens_keep_combat(p: Play, kind: TokenKind, controller: PlayerId, n: nat)
    ensures
        tokens_created(p, kind, controller, n).game.combat == p.game.combat,
    decreases n,
{
    if n > 0 {
        lemma_tokens_keep_combat(p, kind, controller, (n - 1) as nat);
        reveal(token_created);
        reveal(put_in);
    }
}

proof fn lemma_riders_keep_combat(p: Play, tally: Seq<(ReplacementId, i32)>, n: nat)
    ensures
        riders_fired(p, tally, n).game.combat == p.game.combat,
    decreases n,
{
    if n > 0 {
        lemma_riders_keep_combat(p, tally, (n - 1) as nat);
        let before = riders_fired(p, tally, (n - 1) as nat);
        reveal(rider_fired);
        assert forall|q: Play, kind: TokenKind, controller: PlayerId, k: nat|
            (#[trigger] tokens_created(q, kind, controller, k)).game.combat == q.game.combat by {
            lemma_tokens_keep_combat(q, kind, controller, k);
        }
    }
}

proof fn lemma_dealing_keeps_combat(g: Game, pending: Seq<(ObjectId, DamageAssignment)>)
    ensures
        combat_damage_dealt(g, pending).game.combat == g.combat,
{
    reveal(combat_damage_dealt);
    let batch = batch_of(g, pending, pending.len());
    let shields = shields_against(g, proposed(batch));
    let tally = prevention_tally(proposed(batch), shields, batch.len());
    let start = Dealing {
        play: Play { game: g, events: gates_told(g, pending, pending.len()) },
        totals: seq![],
    };
    lemma_entries_keep_combat(start, batch, shields, batch.len());
    let dealt = entries_dealt(start, batch, shields, batch.len());
    lemma_riders_keep_combat(
        Play { events: dealt.play.events + player_damage_events(dealt.totals), ..dealt.play },
        tally,
        tally.len(),
    );
}

proof fn lemma_settling_keeps_combat(p: Play)
    ensures
        actions_settled(p).game.combat == p.game.combat,
    decreases living_count(p.game), p.game.battlefield.len(),
{
    let done = actions_performed(p);
    lemma_actions_keep_combat(p);
    if done.events.len() > p.events.len() {
        let news = done.events.skip(p.events.len() as int);
        let next = triggers_processed(done.game, news);
        law_actions_end(p);
        law_triggers_keep_table(done.game, news);
        lemma_same_seats(done.game, next);
        lemma_settling_keeps_combat(Play { game: next, ..done });
    }
}

/// The last round of state-based actions after combat damage tells of nothing (CR 704.3).
pub proof fn law_settled(p: Play) -> (last: Play)
    ensures
        actions_settled(p) == actions_performed(last),
        actions_performed(last).events.len() <= last.events.len(),
    decreases living_count(p.game), p.game.battlefield.len(),
{
    let done = actions_performed(p);
    if done.events.len() <= p.events.len() {
        p
    } else {
        let news = done.events.skip(p.events.len() as int);
        let next = triggers_processed(done.game, news);
        law_actions_end(p);
        law_triggers_keep_table(done.game, news);
        lemma_same_seats(done.game, next);
        law_settled(Play { game: next, ..done })
    }
}

/// A sub-step that waits for no one leaves no damage to be dealt and is noted as done.
pub proof fn law_step_done(p: Play, sub_step: SubStep)
    requires
        p.game.combat is Some,
        step_resolved(p, sub_step).waiting is None,
    ensures
        ({
            let before = p.game.combat->0;
            let after = step_resolved(p, sub_step).play.game.combat;
            &&& after is Some
            &&& after->0.pending_damage@.len() == 0
            &&& after->0.first_strike_done == (before.first_strike_done || sub_step
                == SubStep::FirstStrike)
            &&& after->0.regular_damage_done == (before.regular_damage_done || sub_step
                == SubStep::Regular)
        }),
{
    reveal(step_resolved);
    let collected = damage_collected(p.game, sub_step).game;
    lemma_collected(p.game, sub_step);
    let taken = pending_taken(collected);
    let dealt = combat_damage_dealt(taken, pending_of(collected));
    lemma_dealing_keeps_combat(taken, pending_of(collected));
    let noted = Play {
        game: step_done(dealt.game, sub_step),
        events: p.events + dealt.events,
    };
    law_triggers_keep_table(noted.game, dealt.events);
    lemma_settling_keeps_combat(
        Play { game: triggers_processed(noted.game, dealt.events), ..noted },
    );
}

/// Combat damage is dealt once: after all of it has been dealt, a further call changes nothing.
pub proof fn law_dealt_once(p: Play)
    requires
        combat_damage_resolved(p).waiting is None,
    ensures
        combat_damage_resolved(combat_damage_resolved(p).play) == combat_damage_resolved(p),
{
    if let Some(combat) = p.game.combat {
        if !combat.regular_damage_done {
            if first_strike_due(p.game, combat) {
                law_step_done(p, SubStep::FirstStrike);
                law_step_done(step_resolved(p, SubStep::FirstStrike).play, SubStep::Regular);
            } else {
                law_step_done(p, SubStep::Regular);
            }
        }
    }
}

/// Whether no player stands in some totals twice.
pub open spec fn each_player_once(totals: Seq<PlayerDamage>) -> bool {
    forall|i: int, j: int|
        0 <= i < j < totals.len() ==> (#[trigger] totals[i]).player_id != (
        #[trigger] totals[j]).player_id
}

proof fn lemma_totals_with(
    totals: Seq<PlayerDamage>,
    player: PlayerId,
    source: ObjectId,
    amount: u32,
    from: nat,
)
    requires
        each_player_once(totals),
        forall|i: int|
            0 <= i < from && i < totals.len() ==> (#[trigger] totals[i]).player_id != player,
    ensures
        each_player_once(totals_with(totals, player, source, amount, from)),
    decreases totals.len() - from,
{
    if from < totals.len() && totals[from as int].player_id != player {
        lemma_totals_with(totals, player, source, amount, from + 1);
    }
}

/// However many creatures deal combat damage to a player in a step, the player is told of once.
pub proof fn law_told_once(
    d: Dealing,
    batch: Seq<BatchEntry>,
    shields: Seq<Option<ReplacementId>>,
    n: nat,
)
    requires
        each_player_once(d.totals),
    ensures
        each_player_once(entries_dealt(d, batch, shields, n).totals),
    decreases n,
{
    if n > 0 {
        law_told_once(d, batch, shields, (n - 1) as nat);
        let before = entries_dealt(d, batch, shields, (n - 1) as nat);
        let entry = batch[n - 1];
        reveal(entry_dealt);
        if let TargetRef::Player(player) = target_of(entry.assignment) {
            lemma_totals_with(before.totals, player, entry.ctx.source_id, 0, 0);
            lemma_totals_with(
                before.totals,
                player,
                entry.ctx.source_id,
                entry.assignment.amount,
                0,
            );
        }
    }
}

/// The sum of some amounts.
pub open spec fn amounts_sum(amounts: List<(ObjectId, u32)>) -> nat
    decreases amounts,
{
    match amounts.node {
        None => 0,
        Some(n) => n.item.1 as nat + amounts_sum(n.rest),
    }
}

/// Whether a source stands among some amounts.
spec fn has_source(amounts: List<(ObjectId, u32)>, source: ObjectId) -> bool
    decreases amounts,
{
    match amounts.node {
        None => false,
        Some(n) => n.item.0 == source || has_source(n.rest, source),
    }
}

spec fn sources_differ(amounts: List<(ObjectId, u32)>) -> bool
    decreases amounts,
{
    match amounts.node {
        None => true,
        Some(n) => !has_source(n.rest, n.item.0) && sources_differ(n.rest),
    }
}

/// Whether no source stands among some amounts twice.
pub open spec fn each_source_once(amounts: List<(ObjectId, u32)>) -> bool {
    forall|i: int, j: int|
        0 <= i < j < amounts@.len() ==> (#[trigger] amounts@[i]).0 != (#[trigger] amounts@[j]).0
}

proof fn lemma_has_source(amounts: List<(ObjectId, u32)>, i: int)
    requires
        0 <= i < amounts@.len(),
    ensures
        has_source(amounts, amounts@[i].0),
    decreases amounts,
{
    if i > 0 {
        let rest = list_rest(amounts);
        assert(amounts@[i] == rest@[i - 1]);
        lemma_has_source(rest, i - 1);
    }
}

proof fn lemma_sources_differ(amounts: List<(ObjectId, u32)>)
    requires
        sources_differ(amounts),
    ensures
        each_source_once(amounts),
    decreases amounts,
{
    if amounts.node is Some {
        let rest = list_rest(amounts);
        lemma_sources_differ(rest);
        assert forall|i: int, j: int| 0 <= i < j < amounts@.len() implies (
        #[trigger] amounts@[i]).0 != (#[trigger] amounts@[j]).0 by {
            assert(amounts@[j] == rest@[j - 1]);
            if i == 0 {
                lemma_has_source(rest, j - 1);
            } else {
                assert(amounts@[i] == rest@[i - 1]);
            }
        }
    }
}

proof fn lemma_amounts_with(amounts: List<(ObjectId, u32)>, source: ObjectId, amount: u32)
    requires
        sources_differ(amounts),
    ensures
        sources_differ(amounts_with(amounts, source, amount)),
        capped(amounts_sum(amounts_with(amounts, source, amount))) == capped(
            amounts_sum(amounts) + amount as nat,
        ),
        forall|s: ObjectId| #[trigger]
            has_source(amounts_with(amounts, source, amount), s) == (has_source(amounts, s) || s
                == source),
    decreases amounts,
{
    reveal_with_fuel(amounts_sum, 2);
    reveal_with_fuel(has_source, 2);
    reveal_with_fuel(sources_differ, 2);
    if amounts.node is Some {
        let rest = list_rest(amounts);
        let next = amounts_with(amounts, source, amount);
        if amounts.node->0.item.0 != source {
            lemma_amounts_with(rest, source, amount);
            assert(list_rest(next) == amounts_with(rest, source, amount));
        }
        assert forall|s: ObjectId| #[trigger]
            has_source(next, s) == (has_source(amounts, s) || s == source) by {
            if amounts.node->0.item.0 != source {
                assert(has_source(list_rest(next), s) == (has_source(rest, s) || s == source));
            } else {
                assert(list_rest(next) == rest);
            }
        }
    }
}

/// Whether what one player has been dealt names each source once and adds up.
spec fn adds_up(d: PlayerDamage) -> bool {
    sources_differ(d.source_amounts) && d.total_damage == capped(amounts_sum(d.source_amounts))
}

spec fn all_add_up(totals: Seq<PlayerDamage>) -> bool {
    forall|i: int| 0 <= i < totals.len() ==> adds_up(#[trigger] totals[i])
}

proof fn lemma_totals_add_up(
    totals: Seq<PlayerDamage>,
    player: PlayerId,
    source: ObjectId,
    amount: u32,
    from: nat,
)
    requires
        all_add_up(totals),
    ensures
        all_add_up(totals_with(totals, player, source, amount, from)),
    decreases totals.len() - from,
{
    let next = totals_with(totals, player, source, amount, from);
    if from >= totals.len() {
        let one = list_of(seq![(source, amount)]);
        assert(seq![(source, amount)].drop_first() =~= seq![]);
        reveal_with_fuel(list_of, 3);
        reveal_with_fuel(amounts_sum, 3);
        reveal_with_fuel(has_source, 3);
        reveal_with_fuel(sources_differ, 3);
        assert forall|i: int| 0 <= i < next.len() implies adds_up(#[trigger] next[i]) by {
            if i < totals.len() {
                assert(adds_up(totals[i]));
            } else {
                assert(next[i].source_amounts == one);
            }
        }
    } else if totals[from as int].player_id == player {
        assert(adds_up(totals[from as int]));
        lemma_amounts_with(totals[from as int].source_amounts, source, amount);
        assert forall|i: int| 0 <= i < next.len() implies adds_up(#[trigger] next[i]) by {
            assert(adds_up(totals[i]));
        }
    } else {
        lemma_totals_add_up(totals, player, source, amount, from + 1);
    }
}

proof fn lemma_entries_add_up(
    d: Dealing,
    batch: Seq<BatchEntry>,
    shields: Seq<Option<ReplacementId>>,
    n: nat,
)
    requires
        d.totals.len() == 0,
    ensures
        all_add_up(entries_dealt(d, batch, shields, n).totals),
    decreases n,
{
    if n > 0 {
        lemma_entries_add_up(d, batch, shields, (n - 1) as nat);
        let before = entries_dealt(d, batch, shields, (n - 1) as nat);
        let entry = batch[n - 1];
        reveal(entry_dealt);
        if let TargetRef::Player(player) = target_of(entry.assignment) {
            let source = entry.ctx.source_id;
            lemma_totals_add_up(before.totals, player, source, 0, 0);
            lemma_totals_add_up(before.totals, player, source, entry.assignment.amount, 0);
        }
    }
}

/// Whether nothing is told of combat damage to a player from `from` on.
spec fn quiet_from(events: Seq<GameEvent>, from: nat) -> bool {
    forall|i: int|
        from <= i < events.len() ==> !((#[trigger] events[i]) is CombatDamageDealtToPlayer)
}

proof fn lemma_gates_quiet(g: Game, pending: Seq<(ObjectId, DamageAssignment)>, n: nat)
    ensures
        quiet_from(gates_told(g, pending, n), 0),
    decreases n,
{
    if n > 0 {
        lemma_gates_quiet(g, pending, (n - 1) as nat);
    }
}

proof fn lemma_entries_quiet(
    d: Dealing,
    batch: Seq<BatchEntry>,
    shields: Seq<Option<ReplacementId>>,
    n: nat,
)
    requires
        quiet_from(d.play.events, 0),
    ensures
        quiet_from(entries_dealt(d, batch, shields, n).play.events, 0),
    decreases n,
{
    if n > 0 {
        lemma_entries_quiet(d, batch, shields, (n - 1) as nat);
        reveal(entry_dealt);
        reveal(damage_dealt);
        reveal(player_hit);
        reveal(permanent_hit);
        reveal(life_changed);
    }
}

/// Whether more is told than before, and nothing more of combat damage to a player.
spec fn tells_quietly(before: Seq<GameEvent>, after: Seq<GameEvent>) -> bool {
    before.is_prefix_of(after) && quiet_from(after, before.len())
}

proof fn lemma_quietly(a: Seq<GameEvent>, b: Seq<GameEvent>, c: Seq<GameEvent>)
    requires
        tells_quietly(a, b),
        tells_quietly(b, c),
    ensures
        tells_quietly(a, c),
{
    assert forall|i: int| a.len() <= i < c.len() implies !((
    #[trigger] c[i]) is CombatDamageDealtToPlayer) by {
        if i < b.len() {
            assert(c[i] == b[i]);
        }
    }
}

proof fn lemma_tokens_quiet(p: Play, kind: TokenKind, controller: PlayerId, n: nat)
    ensures
        tells_quietly(p.events, tokens_created(p, kind, controller, n).events),
    decreases n,
{
    if n > 0 {
        lemma_tokens_quiet(p, kind, controller, (n - 1) as nat);
        let before = tokens_created(p, kind, controller, (n - 1) as nat).events;
        let after = tokens_created(p, kind, controller, n).events;
        reveal(token_created);
        lemma_quietly(p.events, before, after);
    }
}

proof fn lemma_rider_quiet(p: Play, rid: ReplacementId, total: i32)
    ensures
        tells_quietly(p.events, rider_fired(p, rid, total).events),
        rider_fired(p, rid, total).game.commander_damage == p.game.commander_damage,
{
    reveal(rider_fired);
    if total > 0 {
        if shield_at(p.game, rid) is Some {
            let def = shield_at(p.game, rid)->0;
            let told = p.events.push(
                GameEvent::DamagePrevented {
                    source_id: rid.source,
                    target: shielded(def, rid.source),
                    amount: total as u32,
                },
            );
            assert(tells_quietly(p.events, told));
            if def.runtime_execute is Some {
                let rider = def.runtime_execute->0;
                let counted = Play {
                    game: Game { last_effect_count: Some(total), ..p.game },
                    events: told,
                };
                lemma_made_quiet(counted, rider);
                lemma_quietly(p.events, told, rider_fired(p, rid, total).events);
            }
        }
    }
}

proof fn lemma_made_quiet(p: Play, rider: Rc<TokenRider>)
    ensures
        tells_quietly(p.events, tokens_made(p, *rider).events),
        tokens_made(p, *rider).game.commander_damage == p.game.commander_damage,
{
    let made = *rider;
    let kind = token_kind(p.game, made);
    let number = token_count(p.game, made);
    lemma_tokens_quiet(p, kind, rider.controller, number);
    lemma_tokens_keep_record(p, kind, rider.controller, number);
}

proof fn lemma_tokens_keep_record(p: Play, kind: TokenKind, controller: PlayerId, n: nat)
    ensures
        tokens_created(p, kind, controller, n).game.commander_damage == p.game.commander_damage,
    decreases n,
{
    if n > 0 {
        lemma_tokens_keep_record(p, kind, controller, (n - 1) as nat);
        reveal(token_created);
        reveal(put_in);
    }
}

proof fn lemma_riders_quiet(p: Play, tally: Seq<(ReplacementId, i32)>, n: nat)
    ensures
        tells_quietly(p.events, riders_fired(p, tally, n).events),
        riders_fired(p, tally, n).game.commander_damage == p.game.commander_damage,
    decreases n,
{
    if n > 0 {
        lemma_riders_quiet(p, tally, (n - 1) as nat);
        let before = riders_fired(p, tally, (n - 1) as nat);
        lemma_rider_quiet(before, tally[n - 1].0, tally[n - 1].1);
        lemma_quietly(p.events, before.events, riders_fired(p, tally, n).events);
    }
}

/// Whether an event that tells of combat damage to a player names no source twice.
pub open spec fn told_by_source(event: GameEvent) -> bool {
    match event {
        GameEvent::CombatDamageDealtToPlayer { source_amounts, .. } => each_source_once(
            source_amounts,
        ),
        _ => true,
    }
}

/// Whether the total of such an event is the sum of what the sources dealt, or the largest amount
/// there is where the sum is beyond it.
pub open spec fn told_in_sum(event: GameEvent) -> bool {
    match event {
        GameEvent::CombatDamageDealtToPlayer { source_amounts, total_damage, .. } => total_damage
            == capped(amounts_sum(source_amounts)),
        _ => true,
    }
}

/// Whether two events do not tell of combat damage to one player.
pub open spec fn told_apart(a: GameEvent, b: GameEvent) -> bool {
    match (a, b) {
        (
            GameEvent::CombatDamageDealtToPlayer { player_id: p, .. },
            GameEvent::CombatDamageDealtToPlayer { player_id: q, .. },
        ) => p != q,
        _ => true,
    }
}

/// Of the combat damage of a batch each player is told at most once. No source stands there
/// twice, and the total is the sum of what the sources dealt (CR 510.2).
pub proof fn law_players_told(g: Game, pending: Seq<(ObjectId, DamageAssignment)>)
    ensures
        ({
            let events = combat_damage_dealt(g, pending).events;
            &&& forall|i: int, j: int|
                0 <= i < j < events.len() ==> told_apart(#[trigger] events[i], #[trigger] events[j])
            &&& forall|i: int| 0 <= i < events.len() ==> told_by_source(#[trigger] events[i])
            &&& forall|i: int| 0 <= i < events.len() ==> told_in_sum(#[trigger] events[i])
        }),
{
    reveal(combat_damage_dealt);
    let batch = batch_of(g, pending, pending.len());
    let shields = shields_against(g, proposed(batch));
    let tally = prevention_tally(proposed(batch), shields, batch.len());
    let start = Dealing {
        play: Play { game: g, events: gates_told(g, pending, pending.len()) },
        totals: seq![],
    };
    lemma_gates_quiet(g, pending, pending.len());
    lemma_entries_quiet(start, batch, shields, batch.len());
    lemma_entries_add_up(start, batch, shields, batch.len());
    law_told_once(start, batch, shields, batch.len());
    let dealt = entries_dealt(start, batch, shields, batch.len());
    let first = dealt.play.events;
    let told = player_damage_events(dealt.totals);
    let all = Play { events: first + told, ..dealt.play };
    lemma_riders_quiet(all, tally, tally.len());
    let events = combat_damage_dealt(g, pending).events;
    assert forall|i: int| 0 <= i < events.len() && (
    #[trigger] events[i]) is CombatDamageDealtToPlayer implies first.len() <= i < first.len()
        + told.len() && events[i] == told[i - first.len()] by {
        if i < all.events.len() {
            assert(events[i] == all.events[i]);
            if i < first.len() {
                assert(all.events[i] == first[i]);
            }
        }
    }
    assert forall|i: int| 0 <= i < events.len() implies told_by_source(#[trigger] events[i])
        && told_in_sum(events[i]) by {
        if events[i] is CombatDamageDealtToPlayer {
            let d = dealt.totals[i - first.len()];
            assert(adds_up(d));
            lemma_sources_differ(d.source_amounts);
        }
    }
    assert forall|i: int, j: int| 0 <= i < j < events.len() implies told_apart(
        #[trigger] events[i],
        #[trigger] events[j],
    ) by {
        if events[i] is CombatDamageDealtToPlayer && events[j] is CombatDamageDealtToPlayer {
            assert(dealt.totals[i - first.len()].player_id != dealt.totals[j
                - first.len()].player_id);
        }
    }
}

/// How much combat damage a commander is on record to have dealt to a player, as far as the
/// record from `from` on says.
pub open spec fn commander_damage_from(
    entries: Seq<CommanderDamageEntry>,
    player: PlayerId,
    commander: ObjectId,
    from: nat,
) -> u32
    decreases entries.len() - from,
{
    if from >= entries.len() {
        0
    } else if entries[from as int].player == player && entries[from as int].commander == commander {
        entries[from as int].damage
    } else {
        commander_damage_from(entries, player, commander, from + 1)
    }
}

proof fn lemma_commander_damage(
    entries: Seq<CommanderDamageEntry>,
    player: PlayerId,
    commander: ObjectId,
    amount: u32,
    from: nat,
    p: PlayerId,
    c: ObjectId,
    at: nat,
)
    requires
        at <= from <= entries.len(),
        forall|i: int|
            0 <= i < from ==> !((#[trigger] entries[i]).player == player && entries[i].commander
                == commander),
    ensures
        commander_damage_from(
            commander_damage_with(entries, player, commander, amount, from),
            p,
            c,
            at,
        ) == if p == player && c == commander {
            sat_sum(commander_damage_from(entries, p, c, at), amount)
        } else {
            commander_damage_from(entries, p, c, at)
        },
    decreases entries.len() - from, entries.len() - at,
{
    let after = commander_damage_with(entries, player, commander, amount, from);
    if from < entries.len() && !(entries[from as int].player == player
        && entries[from as int].commander == commander) {
        lemma_commander_damage(entries, player, commander, amount, from + 1, p, c, at);
    } else if at < from {
        assert(after[at as int] == entries[at as int]);
        if !(entries[at as int].player == p && entries[at as int].commander == c) {
            lemma_commander_damage(entries, player, commander, amount, from, p, c, at + 1);
        }
    } else if from < entries.len() {
        assert(after == entries.update(from as int, after[from as int]));
        if !(p == player && c == commander) {
            lemma_commander_damage_rest(entries, after, p, c, from + 1);
        }
    } else {
        assert(after.len() == entries.len() + 1);
        assert(commander_damage_from(after, p, c, from + 1) == 0);
    }
}

proof fn lemma_commander_damage_rest(
    entries: Seq<CommanderDamageEntry>,
    after: Seq<CommanderDamageEntry>,
    p: PlayerId,
    c: ObjectId,
    from: nat,
)
    requires
        after.len() == entries.len(),
        forall|i: int| from <= i < entries.len() ==> #[trigger] after[i] == entries[i],
    ensures
        commander_damage_from(after, p, c, from) == commander_damage_from(entries, p, c, from),
    decreases entries.len() - from,
{
    if from < entries.len() {
        assert(after[from as int] == entries[from as int]);
        lemma_commander_damage_rest(entries, after, p, c, from + 1);
    }
}

/// Damage that a commander deals to a player adds to what that commander has dealt to that
/// player before, and to nothing else (CR 704.6c).
pub proof fn law_commander_damage(
    entries: Seq<CommanderDamageEntry>,
    player: PlayerId,
    commander: ObjectId,
    amount: u32,
    p: PlayerId,
    c: ObjectId,
)
    ensures
        commander_damage_from(
            commander_damage_with(entries, player, commander, amount, 0),
            p,
            c,
            0,
        ) == if p == player && c == commander {
            sat_sum(commander_damage_from(entries, p, c, 0), amount)
        } else {
            commander_damage_from(entries, p, c, 0)
        },
{
    lemma_commander_damage(entries, player, commander, amount, 0, p, c, 0);
}

/// How much of the first `n` entries of a batch a commander deals to a player, with what shields
/// prevent left out.
pub open spec fn commander_share(
    batch: Seq<BatchEntry>,
    shields: Seq<Option<ReplacementId>>,
    player: PlayerId,
    commander: ObjectId,
    n: nat,
) -> nat
    decreases n,
{
    if n == 0 {
        0
    } else {
        let entry = batch[n - 1];
        commander_share(batch, shields, player, commander, (n - 1) as nat) + (if shields[n
            - 1] is None && entry.source_is_commander && entry.ctx.source_id == commander
            && target_of(entry.assignment) == TargetRef::Player(player) {
            entry.assignment.amount as nat
        } else {
            0
        })
    }
}

proof fn lemma_entries_record(
    d: Dealing,
    batch: Seq<BatchEntry>,
    shields: Seq<Option<ReplacementId>>,
    player: PlayerId,
    commander: ObjectId,
    n: nat,
)
    ensures
        commander_damage_from(
            entries_dealt(d, batch, shields, n).play.game.commander_damage,
            player,
            commander,
            0,
        ) == capped(
            commander_damage_from(d.play.game.commander_damage, player, commander, 0) as nat
                + commander_share(batch, shields, player, commander, n),
        ),
    decreases n,
{
    if n > 0 {
        lemma_entries_record(d, batch, shields, player, commander, (n - 1) as nat);
        let before = entries_dealt(d, batch, shields, (n - 1) as nat);
        let entry = batch[n - 1];
        let target = target_of(entry.assignment);
        let amount = entry.assignment.amount;
        let hit = damage_dealt(before.play, entry.ctx, target, amount, true);
        assert(hit.game.commander_damage == before.play.game.commander_damage) by {
            reveal(damage_dealt);
            reveal(player_hit);
            reveal(permanent_hit);
            reveal(life_changed);
        }
        reveal(entry_dealt);
        if let TargetRef::Player(p) = target {
            law_commander_damage(
                before.play.game.commander_damage,
                p,
                entry.ctx.source_id,
                amount,
                player,
                commander,
            );
        }
    }
}

/// A batch of combat damage adds to what a commander has dealt to a player just what that
/// commander deals to that player in it (CR 704.6c).
pub proof fn law_commander_batch(
    g: Game,
    pending: Seq<(ObjectId, DamageAssignment)>,
    player: PlayerId,
    commander: ObjectId,
)
    ensures
        ({
            let batch = batch_of(g, pending, pending.len());
            let shields = shields_against(g, proposed(batch));
            commander_damage_from(
                combat_damage_dealt(g, pending).game.commander_damage,
                player,
                commander,
                0,
            ) == capped(
                commander_damage_from(g.commander_damage, player, commander, 0) as nat
                    + commander_share(batch, shields, player, commander, batch.len()),
            )
        }),
{
    reveal(combat_damage_dealt);
    let batch = batch_of(g, pending, pending.len());
    let shields = shields_against(g, proposed(batch));
    let tally = prevention_tally(proposed(batch), shields, batch.len());
    let start = Dealing {
        play: Play { game: g, events: gates_told(g, pending, pending.len()) },
        totals: seq![],
    };
    lemma_entries_record(start, batch, shields, player, commander, batch.len());
    let dealt = entries_dealt(start, batch, shields, batch.len());
    lemma_riders_quiet(
        Play { events: dealt.play.events + player_damage_events(dealt.totals), ..dealt.play },
        tally,
        tally.len(),
    );
}

/// How much of the first `n` pieces of damage a shield prevents.
pub open spec fn prevented_by(
    batch: Seq<ProposedDamage>,
    shields: Seq<Option<ReplacementId>>,
    rid: ReplacementId,
    n: nat,
) -> nat
    decreases n,
{
    if n == 0 {
        0
    } else {
        prevented_by(batch, shields, rid, (n - 1) as nat) + (if shields[n - 1] == Some(rid) {
            batch[n - 1].amount as nat
        } else {
            0
        })
    }
}

/// Whether a tally holds each shield once, with what `prevented` says of it.
pub open spec fn tallies(
    tally: Seq<(ReplacementId, i32)>,
    prevented: spec_fn(ReplacementId) -> nat,
) -> bool {
    &&& forall|i: int, j: int|
        0 <= i < j < tally.len() ==> (#[trigger] tally[i]).0 != (#[trigger] tally[j]).0
    &&& forall|i: int|
        0 <= i < tally.len() ==> (#[trigger] tally[i]).1 == clamped(
            prevented(tally[i].0) as int,
        )
}

proof fn lemma_tally_with(
    tally: Seq<(ReplacementId, i32)>,
    rid: ReplacementId,
    amount: u32,
    from: nat,
    before: spec_fn(ReplacementId) -> nat,
    after: spec_fn(ReplacementId) -> nat,
)
    requires
        from <= tally.len(),
        tallies(tally, before),
        forall|i: int| 0 <= i < from ==> (#[trigger] tally[i]).0 != rid,
        after(rid) == before(rid) + amount,
        forall|r: ReplacementId| r != rid ==> #[trigger] after(r) == before(r),
        (forall|i: int| 0 <= i < tally.len() ==> (#[trigger] tally[i]).0 != rid) ==> before(rid)
            == 0,
    ensures
        tallies(tally_with(tally, rid, amount, from), after),
        exists|i: int|
            0 <= i < tally_with(tally, rid, amount, from).len() && (
            #[trigger] tally_with(tally, rid, amount, from)[i]).0 == rid,
        forall|i: int|
            0 <= i < tally.len() ==> (#[trigger] tally_with(tally, rid, amount, from)[i]).0
                == tally[i].0,
        tally_with(tally, rid, amount, from).len() >= tally.len(),
    decreases tally.len() - from,
{
    let next = tally_with(tally, rid, amount, from);
    if from >= tally.len() {
        assert(next[tally.len() as int].0 == rid);
    } else if tally[from as int].0 == rid {
        assert(next[from as int].0 == rid);
        assert forall|i: int| 0 <= i < next.len() implies (#[trigger] next[i]).1 == clamped(
            after(next[i].0) as int,
        ) by {
            assert(tally[i].1 == clamped(before(tally[i].0) as int));
        }
    } else {
        lemma_tally_with(tally, rid, amount, from + 1, before, after);
    }
}

/// The tally of a batch holds each shield that prevents something once, with all that it
/// prevents, so that its rider fires once (CR 615.7, CR 615.13).
pub proof fn law_tally(batch: Seq<ProposedDamage>, shields: Seq<Option<ReplacementId>>, n: nat)
    ensures
        tallies(
            prevention_tally(batch, shields, n),
            |rid: ReplacementId| prevented_by(batch, shields, rid, n),
        ),
        forall|k: int|
            0 <= k < n && (#[trigger] shields[k]) is Some ==> exists|i: int|
                0 <= i < prevention_tally(batch, shields, n).len() && (
                #[trigger] prevention_tally(batch, shields, n)[i]).0 == shields[k]->0,
    decreases n,
{
    if n > 0 {
        law_tally(batch, shields, (n - 1) as nat);
        let m = (n - 1) as nat;
        let tally = prevention_tally(batch, shields, m);
        let next = prevention_tally(batch, shields, n);
        let before = |rid: ReplacementId| prevented_by(batch, shields, rid, m);
        let after = |rid: ReplacementId| prevented_by(batch, shields, rid, n);
        match shields[n - 1] {
            None => {
                assert(tallies(next, after)) by {
                    assert forall|i: int| 0 <= i < next.len() implies (#[trigger] next[i]).1
                        == clamped(after(next[i].0) as int) by {
                        assert(tally[i].1 == clamped(before(tally[i].0) as int));
                    }
                }
            },
            Some(rid) => {
                if forall|i: int| 0 <= i < tally.len() ==> (#[trigger] tally[i]).0 != rid {
                    lemma_nothing_prevented(batch, shields, rid, m);
                }
                lemma_tally_with(tally, rid, batch[n - 1].amount, 0, before, after);
            },
        }
        assert forall|k: int| 0 <= k < n && (#[trigger] shields[k]) is Some implies exists|i: int|
            0 <= i < next.len() && (#[trigger] next[i]).0 == shields[k]->0 by {
            if k < m {
                let i = choose|i: int|
                    0 <= i < tally.len() && (#[trigger] tally[i]).0 == shields[k]->0;
                assert(next[i].0 == tally[i].0);
            }
        }
    }
}

proof fn lemma_nothing_prevented(
    batch: Seq<ProposedDamage>,
    shields: Seq<Option<ReplacementId>>,
    rid: ReplacementId,
    n: nat,
)
    requires
        forall|k: int| 0 <= k < n ==> #[trigger] shields[k] != Some(rid),
    ensures
        prevented_by(batch, shields, rid, n) == 0,
    decreases n,
{
    if n > 0 {
        lemma_nothing_prevented(batch, shields, rid, (n - 1) as nat);
        assert(shields[n - 1] != Some(rid));
    }
}

} // verus!
