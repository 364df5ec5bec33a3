//! The combat damage step (CR 510): who assigns how much damage to what, and the damage dealt.

use crate::combat::{AttackerInfo, CombatState, DamageAssignment};
use crate::combat_damage::assignment::{check_strikes_in, strikes_in, SubStep};
use crate::combat_damage::collection::{collect_damage_assignments, damage_collected};
use crate::combat_damage::dealing::{apply_combat_damage, combat_damage_dealt};
use crate::elimination::laws::{lemma_same_seats, living_count};
use crate::events::GameEvent;
use crate::ids::ObjectId;
use crate::list::{list_of, List};
use crate::sba::{actions_performed, check_state_based_actions, law_actions_end};
use crate::state::{Game, GameState, Play, WaitingFor};
use crate::triggers::{law_triggers_keep_table, process_triggers, triggers_processed};
use vstd::prelude::*;

pub mod assignment;
pub mod collection;
pub mod dealing;
pub mod dealing_laws;
pub mod laws;
pub mod step_laws;
pub mod striking_laws;
pub mod totals_laws;

verus! {

/// State-based actions, and the triggers of what they do, until they do nothing more (CR 704.3).
pub open spec fn actions_settled(p: Play) -> Play
    decreases living_count(p.game), p.game.battlefield.len(),
{
    let done = actions_performed(p);
    if done.events.len() <= p.events.len() {
        done
    } else {
        let news = done.events.skip(p.events.len() as int);
        let next = triggers_processed(done.game, news);
        proof {
            law_actions_end(p);
            law_triggers_keep_table(done.game, news);
            lemma_same_seats(done.game, next);
        }
        actions_settled(Play { game: next, ..done })
    }
}

/// The triggers of the damage first, while the creatures that dealt and took it are still there,
/// then state-based actions and what they set off.
pub open spec fn damage_settled(p: Play, damage_events: Seq<GameEvent>) -> Play {
    actions_settled(Play { game: triggers_processed(p.game, damage_events), ..p })
}

fn copy_events_from(events: &Vec<GameEvent>, from: usize) -> (r: Vec<GameEvent>)
    requires
        from <= events@.len(),
    ensures
        r@ == events@.skip(from as int),
{
    let mut out: Vec<GameEvent> = Vec::new();
    let mut i: usize = from;
    while i < events.len()
        invariant
            from <= i <= events@.len(),
            out@ =~= events@.subrange(from as int, i as int),
        decreases events@.len() - i,
    {
        out.push(events[i].clone());
        i = i + 1;
    }
    assert(out@ =~= events@.skip(from as int));
    out
}

/// CR 603.2 + CR 704.3: Full trigger/SBA loop after combat damage.
///
/// 1. Collect triggers from damage events while source creatures are still on the battlefield
///    (e.g., DamageReceived for Jackal Pup).
/// 2. Run SBAs (destroy lethal-damage creatures → ZoneChanged events).
/// 3. Process triggers from SBA-generated events (e.g., dies triggers from graveyard scan).
/// 4. Repeat SBA/trigger cycle until stable (no new SBAs, no new triggers).
pub fn process_combat_damage_triggers(
    state: &mut GameState,
    damage_events: &Vec<GameEvent>,
    all_events: &mut Vec<GameEvent>,
)
    ensures
        (Play { game: final(state)@, events: final(all_events)@ }) == damage_settled(
            Play { game: old(state)@, events: old(all_events)@ },
            damage_events@,
        ),
{
    // CR 603.2: Triggers fire at the moment the event occurs, so this must run before SBAs
    // remove dying objects.
    process_triggers(state, damage_events.as_slice());
    let ghost start = Play { game: state@, events: all_events@ };
    loop
        invariant_except_break
            actions_settled(Play { game: state@, events: all_events@ }) == actions_settled(start),
        invariant
            start == (Play {
                game: triggers_processed(old(state)@, damage_events@),
                events: old(all_events)@,
            }),
        ensures
            (Play { game: state@, events: all_events@ }) == actions_settled(start),
        decreases living_count(state@), state@.battlefield.len(),
    {
        let ghost p = Play { game: state@, events: all_events@ };
        let events_before: usize = all_events.len();
        check_state_based_actions(state, all_events);
        if all_events.len() <= events_before {
            break;
        }
        let new_events = copy_events_from(all_events, events_before);
        let ghost done = Play { game: state@, events: all_events@ };
        process_triggers(state, new_events.as_slice());
        proof {
            law_actions_end(p);
            law_triggers_keep_table(done.game, new_events@);
            lemma_same_seats(done.game, state@);
        }
    }
}

/// The damage that waits to be dealt.
pub open spec fn pending_of(g: Game) -> Seq<(ObjectId, DamageAssignment)> {
    match g.combat {
        None => seq![],
        Some(c) => c.pending_damage@,
    }
}

/// The game with no damage waiting to be dealt.
pub open spec fn pending_taken(g: Game) -> Game {
    match g.combat {
        None => g,
        Some(c) => Game {
            combat: Some(CombatState { pending_damage: list_of(seq![]), ..c }),
            ..g
        },
    }
}

/// Drain pending_damage from CombatState, resetting it to empty.
pub fn take_pending_damage(state: &mut GameState) -> (r: Vec<(ObjectId, DamageAssignment)>)
    ensures
        r@ == pending_of(old(state)@),
        final(state)@ == pending_taken(old(state)@),
{
    match &mut state.combat {
        None => Vec::new(),
        Some(c) => {
            let pending = c.pending_damage.to_vec();
            c.pending_damage = List::new();
            pending
        },
    }
}

/// The game with a sub-step noted as done.
pub open spec fn step_done(g: Game, sub_step: SubStep) -> Game {
    match g.combat {
        None => g,
        Some(c) => Game {
            combat: Some(
                CombatState {
                    first_strike_done: c.first_strike_done || sub_step == SubStep::FirstStrike,
                    regular_damage_done: c.regular_damage_done || sub_step == SubStep::Regular,
                    damage_step_index: None,
                    ..c
                },
            ),
            ..g
        },
    }
}

fn mark_step_done(state: &mut GameState, sub_step: SubStep)
    ensures
        final(state)@ == step_done(old(state)@, sub_step),
{
    if let Some(c) = &mut state.combat {
        c.first_strike_done = c.first_strike_done || sub_step == SubStep::FirstStrike;
        c.regular_damage_done = c.regular_damage_done || sub_step == SubStep::Regular;
        c.damage_step_index = None;
    }
}

/// What comes of combat damage: the play, and the decision it waits for, if it waits for one.
pub struct Resolved {
    pub play: Play,
    pub waiting: Option<WaitingFor>,
}

/// One sub-step: the damage is collected, and unless someone has to decide how to divide it, all
/// of it is dealt at once, and what it sets off is seen to.
#[verifier::opaque]
pub open spec fn step_resolved(p: Play, sub_step: SubStep) -> Resolved {
    let collected = damage_collected(p.game, sub_step);
    if collected.waiting is Some {
        Resolved { play: Play { game: collected.game, ..p }, waiting: collected.waiting }
    } else {
        let dealt = combat_damage_dealt(
            pending_taken(collected.game),
            pending_of(collected.game),
        );
        Resolved {
            play: damage_settled(
                Play {
                    game: step_done(dealt.game, sub_step),
                    events: p.events + dealt.events,
                },
                dealt.events,
            ),
            waiting: None,
        }
    }
}

fn resolve_step(state: &mut GameState, sub_step: SubStep, events: &mut Vec<GameEvent>) -> (r:
    Option<WaitingFor>)
    ensures
        (Resolved {
            play: Play { game: final(state)@, events: final(events)@ },
            waiting: r,
        }) == step_resolved(Play { game: old(state)@, events: old(events)@ }, sub_step),
{
    proof {
        reveal(step_resolved);
    }
    let waiting = collect_damage_assignments(state, sub_step);
    if waiting.is_some() {
        return waiting;
    }
    // All assignments collected — apply simultaneously (CR 510.2).
    let pending = take_pending_damage(state);
    let damage_events = apply_combat_damage(state, &pending);
    let mut told = copy_events_from(&damage_events, 0);
    assert(told@ =~= damage_events@);
    events.append(&mut told);
    mark_step_done(state, sub_step);
    process_combat_damage_triggers(state, &damage_events, events);
    None
}

pub open spec fn strikes_first(g: Game, id: ObjectId) -> bool {
    g.object(id) matches Some(o) && strikes_in(o, SubStep::FirstStrike, false)
}

fn check_strikes_first(state: &GameState, id: ObjectId) -> (r: bool)
    ensures
        r == strikes_first(state@, id),
{
    match state.objects.get(&id) {
        None => false,
        Some(o) => check_strikes_in(o, SubStep::FirstStrike, false),
    }
}

pub open spec fn attackers_strike_first(g: Game, attackers: List<AttackerInfo>) -> bool
    decreases attackers,
{
    match attackers.node {
        None => false,
        Some(n) => strikes_first(g, n.item.object_id) || attackers_strike_first(g, n.rest),
    }
}

fn check_attackers_strike_first(state: &GameState, attackers: &List<AttackerInfo>) -> (r: bool)
    ensures
        r == attackers_strike_first(state@, *attackers),
    decreases attackers,
{
    match &attackers.node {
        None => false,
        Some(n) => check_strikes_first(state, n.item.object_id) || check_attackers_strike_first(
            state,
            &n.rest,
        ),
    }
}

pub open spec fn blockers_strike_first(
    g: Game,
    blockers: List<(ObjectId, List<ObjectId>)>,
) -> bool
    decreases blockers,
{
    match blockers.node {
        None => false,
        Some(n) => strikes_first(g, n.item.0) || blockers_strike_first(g, n.rest),
    }
}

fn check_blockers_strike_first(
    state: &GameState,
    blockers: &List<(ObjectId, List<ObjectId>)>,
) -> (r: bool)
    ensures
        r == blockers_strike_first(state@, *blockers),
    decreases blockers,
{
    match &blockers.node {
        None => false,
        Some(n) => check_strikes_first(state, n.item.0) || check_blockers_strike_first(
            state,
            &n.rest,
        ),
    }
}

/// Whether the first-strike sub-step is still to come: a creature in combat has first strike or
/// double strike, and the sub-step is not done.
pub open spec fn first_strike_due(g: Game, combat: CombatState) -> bool {
    !combat.first_strike_done && (attackers_strike_first(g, combat.attackers)
        || blockers_strike_first(g, combat.blocker_to_attacker))
}

/// The combat damage step: nothing outside combat or once it is done; else the first-strike
/// sub-step, where it is due, and then the regular one.
pub open spec fn combat_damage_resolved(p: Play) -> Resolved {
    match p.game.combat {
        None => Resolved { play: p, waiting: None },
        Some(combat) => if combat.regular_damage_done {
            Resolved { play: p, waiting: None }
        } else if first_strike_due(p.game, combat) {
            let first = step_resolved(p, SubStep::FirstStrike);
            if first.waiting is Some {
                first
            } else {
                step_resolved(first.play, SubStep::Regular)
            }
        } else {
            step_resolved(p, SubStep::Regular)
        },
    }
}

/// Resolve combat damage with first strike / double strike support (CR 510.1).
/// CR 702.7b: If any creature has first strike or double strike, two damage sub-steps run.
/// Between sub-steps: SBAs are checked and triggers processed.
///
/// Returns `Some(WaitingFor)` when an attacker with 2+ blockers needs interactive
/// damage assignment. Returns `None` when all damage for the current phase is resolved.
/// Re-entrant: call again after the player has divided the damage.
pub fn resolve_combat_damage(state: &mut GameState, events: &mut Vec<GameEvent>) -> (r: Option<
    WaitingFor,
>)
    ensures
        (Resolved {
            play: Play { game: final(state)@, events: final(events)@ },
            waiting: r,
        }) == combat_damage_resolved(Play { game: old(state)@, events: old(events)@ }),
{
    let first_strike: bool = match &state.combat {
        None => {
            return None;
        },
        Some(combat) => {
            // Guard: regular damage already applied (re-entry from triggers during regular step).
            if combat.regular_damage_done {
                return None;
            }
            !combat.first_strike_done && (check_attackers_strike_first(state, &combat.attackers)
                || check_blockers_strike_first(state, &combat.blocker_to_attacker))
        },
    };
    // --- First strike sub-step ---
    if first_strike {
        let waiting = resolve_step(state, SubStep::FirstStrike, events);
        if waiting.is_some() {
            return waiting;
        }
    }
    // --- Regular damage sub-step ---
    resolve_step(state, SubStep::Regular, events)
}

} // verus!
