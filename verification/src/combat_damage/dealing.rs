//! A batch of combat damage dealt at once (CR 510.2), through the shields that prevent it.

use crate::ability::{DamageTargetFilter, DamageTargetPlayerScope, ReplacementDefinition};
use crate::combat::{DamageAssignment, DamageTarget};
use crate::damage::{
    apply_damage_after_replacement, damage_dealt, damage_source, find_damage_source, gate_told,
    passes_gate, pre_replacement_damage_gate, DamageContext,
};
use crate::effects::token;
use crate::effects::token::tokens_made;
use crate::events::GameEvent;
use crate::ids::{ObjectId, PlayerId, TargetRef};
use crate::list::{copy_rc, list_of, List, Node};
use crate::object::sat_sum;
use crate::replacement::{
    prevention_tally, replace_combat_damage_batch, shields_against, ProposedDamage, ReplacementId,
};
use crate::state::{CommanderDamageEntry, Game, GameState, Play};
use std::rc::Rc;
use vstd::prelude::*;

verus! {

/// One source's place in a simultaneous combat-damage batch (CR 510.2).
#[derive(Clone, Copy, Debug, PartialEq, Eq, Structural)]
pub struct BatchEntry {
    pub ctx: DamageContext,
    pub source_is_commander: bool,
    pub assignment: DamageAssignment,
}

/// What some assigned damage is dealt to.
pub open spec fn target_of(assignment: DamageAssignment) -> TargetRef {
    match assignment.target {
        DamageTarget::Object(id) => TargetRef::Object(id),
        DamageTarget::Player(id) => TargetRef::Player(id),
    }
}

fn to_target(assignment: &DamageAssignment) -> (r: TargetRef)
    ensures
        r == target_of(*assignment),
{
    match assignment.target {
        DamageTarget::Object(id) => TargetRef::Object(id),
        DamageTarget::Player(id) => TargetRef::Player(id),
    }
}

pub open spec fn is_commander(g: Game, id: ObjectId) -> bool {
    g.object(id) matches Some(o) && o.is_commander
}

pub open spec fn batch_entry(g: Game, source: ObjectId, assignment: DamageAssignment) ->
    BatchEntry {
    BatchEntry {
        ctx: damage_source(g, source),
        source_is_commander: is_commander(g, source),
        assignment,
    }
}

/// The first `n` assignments as a batch, without those that come to nothing before any replacement.
pub open spec fn batch_of(g: Game, pending: Seq<(ObjectId, DamageAssignment)>, n: nat) -> Seq<
    BatchEntry,
>
    decreases n,
{
    if n == 0 {
        seq![]
    } else {
        let before = batch_of(g, pending, (n - 1) as nat);
        let (source, assignment) = pending[n - 1];
        if passes_gate(g, source, target_of(assignment), assignment.amount) {
            before.push(batch_entry(g, source, assignment))
        } else {
            before
        }
    }
}

/// What is told of the first `n` assignments before any replacement.
pub open spec fn gates_told(g: Game, pending: Seq<(ObjectId, DamageAssignment)>, n: nat) -> Seq<
    GameEvent,
>
    decreases n,
{
    if n == 0 {
        seq![]
    } else {
        let (source, assignment) = pending[n - 1];
        gates_told(g, pending, (n - 1) as nat) + gate_told(
            g,
            source,
            target_of(assignment),
            assignment.amount,
        )
    }
}

fn build_batch(
    state: &GameState,
    pending: &Vec<(ObjectId, DamageAssignment)>,
    events: &mut Vec<GameEvent>,
) -> (r: Vec<BatchEntry>)
    ensures
        r@ == batch_of(state@, pending@, pending@.len()),
        final(events)@ == old(events)@ + gates_told(state@, pending@, pending@.len()),
{
    let mut out: Vec<BatchEntry> = Vec::new();
    let mut i: usize = 0;
    assert(events@ =~= old(events)@ + gates_told(state@, pending@, 0));
    while i < pending.len()
        invariant
            i <= pending@.len(),
            out@ == batch_of(state@, pending@, i as nat),
            events@ == old(events)@ + gates_told(state@, pending@, i as nat),
        decreases pending@.len() - i,
    {
        let (source, assignment) = pending[i];
        let ctx = find_damage_source(state, source);
        let target = to_target(&assignment);
        if pre_replacement_damage_gate(state, &ctx, target, assignment.amount, events) {
            let source_is_commander: bool = match state.objects.get(&source) {
                None => false,
                Some(o) => o.is_commander,
            };
            out.push(BatchEntry { ctx, source_is_commander, assignment });
        }
        i = i + 1;
        assert(events@ =~= old(events)@ + gates_told(state@, pending@, i as nat));
    }
    out
}

/// The damage that a batch proposes.
pub open spec fn proposed(batch: Seq<BatchEntry>) -> Seq<ProposedDamage> {
    Seq::new(
        batch.len(),
        |i: int|
            ProposedDamage {
                target: target_of(batch[i].assignment),
                amount: batch[i].assignment.amount,
                is_combat: true,
            },
    )
}

fn propose(batch: &Vec<BatchEntry>) -> (r: Vec<ProposedDamage>)
    ensures
        r@ == proposed(batch@),
{
    let mut out: Vec<ProposedDamage> = Vec::new();
    let mut i: usize = 0;
    while i < batch.len()
        invariant
            i <= batch@.len(),
            out@ =~= proposed(batch@).take(i as int),
        decreases batch@.len() - i,
    {
        let assignment = batch[i].assignment;
        out.push(
            ProposedDamage {
                target: to_target(&assignment),
                amount: assignment.amount,
                is_combat: true,
            },
        );
        i = i + 1;
    }
    assert(out@ =~= proposed(batch@));
    out
}

/// The combat damage that one player has been dealt in a step, by source and in all.
#[derive(Debug, PartialEq, Eq)]
pub struct PlayerDamage {
    pub player_id: PlayerId,
    pub source_amounts: List<(ObjectId, u32)>,
    pub total_damage: u32,
}

/// Amounts by source with more from one source.
pub open spec fn amounts_with(
    amounts: List<(ObjectId, u32)>,
    source: ObjectId,
    amount: u32,
) -> List<(ObjectId, u32)>
    decreases amounts,
{
    match amounts.node {
        None => List {
            node: Some(
                Rc::new(Node { item: Rc::new((source, amount)), rest: List { node: None } }),
            ),
        },
        Some(n) => if n.item.0 == source {
            List {
                node: Some(
                    Rc::new(
                        Node {
                            item: Rc::new((source, sat_sum(n.item.1, amount))),
                            rest: n.rest,
                        },
                    ),
                ),
            }
        } else {
            List {
                node: Some(
                    Rc::new(
                        Node { item: n.item, rest: amounts_with(n.rest, source, amount) },
                    ),
                ),
            }
        },
    }
}

fn add_amount(amounts: &List<(ObjectId, u32)>, source: ObjectId, amount: u32) -> (r: List<
    (ObjectId, u32),
>)
    ensures
        r == amounts_with(*amounts, source, amount),
    decreases amounts,
{
    match &amounts.node {
        None => List {
            node: Some(
                Rc::new(Node { item: Rc::new((source, amount)), rest: List { node: None } }),
            ),
        },
        Some(n) => if n.item.0 == source {
            let sum: u32 = n.item.1.saturating_add(amount);
            List {
                node: Some(Rc::new(Node { item: Rc::new((source, sum)), rest: n.rest.clone() })),
            }
        } else {
            List {
                node: Some(
                    Rc::new(
                        Node {
                            item: n.item.clone(),
                            rest: add_amount(&n.rest, source, amount),
                        },
                    ),
                ),
            }
        },
    }
}

/// Totals with more damage to one player.
pub open spec fn totals_with(
    totals: Seq<PlayerDamage>,
    player: PlayerId,
    source: ObjectId,
    amount: u32,
    from: nat,
) -> Seq<PlayerDamage>
    decreases totals.len() - from,
{
    if from >= totals.len() {
        totals.push(
            PlayerDamage {
                player_id: player,
                source_amounts: list_of(seq![(source, amount)]),
                total_damage: amount,
            },
        )
    } else if totals[from as int].player_id == player {
        totals.update(
            from as int,
            PlayerDamage {
                player_id: player,
                source_amounts: amounts_with(totals[from as int].source_amounts, source, amount),
                total_damage: sat_sum(totals[from as int].total_damage, amount),
            },
        )
    } else {
        totals_with(totals, player, source, amount, from + 1)
    }
}

fn add_to_totals(
    totals: &mut Vec<PlayerDamage>,
    player: PlayerId,
    source: ObjectId,
    amount: u32,
)
    ensures
        final(totals)@ == totals_with(old(totals)@, player, source, amount, 0),
{
    let mut i: usize = 0;
    while i < totals.len()
        invariant
            i <= totals@.len(),
            totals@ == old(totals)@,
            totals_with(totals@, player, source, amount, 0) == totals_with(
                totals@,
                player,
                source,
                amount,
                i as nat,
            ),
        decreases totals@.len() - i,
    {
        if totals[i].player_id == player {
            let next = PlayerDamage {
                player_id: player,
                source_amounts: add_amount(&totals[i].source_amounts, source, amount),
                total_damage: totals[i].total_damage.saturating_add(amount),
            };
            totals.set(i, next);
            return ;
        }
        i = i + 1;
    }
    totals.push(
        PlayerDamage {
            player_id: player,
            source_amounts: List::one((source, amount)),
            total_damage: amount,
        },
    );
}

/// The record of commander damage with more from one commander to one player (CR 704.6c).
pub open spec fn commander_damage_with(
    entries: Seq<CommanderDamageEntry>,
    player: PlayerId,
    commander: ObjectId,
    amount: u32,
    from: nat,
) -> Seq<CommanderDamageEntry>
    decreases entries.len() - from,
{
    if from >= entries.len() {
        entries.push(CommanderDamageEntry { player, commander, damage: amount })
    } else if entries[from as int].player == player && entries[from as int].commander == commander {
        entries.update(
            from as int,
            CommanderDamageEntry {
                player,
                commander,
                damage: sat_sum(entries[from as int].damage, amount),
            },
        )
    } else {
        commander_damage_with(entries, player, commander, amount, from + 1)
    }
}

fn add_commander_damage(
    entries: &mut Vec<CommanderDamageEntry>,
    player: PlayerId,
    commander: ObjectId,
    amount: u32,
)
    ensures
        final(entries)@ == commander_damage_with(old(entries)@, player, commander, amount, 0),
{
    let mut i: usize = 0;
    while i < entries.len()
        invariant
            i <= entries@.len(),
            entries@ == old(entries)@,
            commander_damage_with(entries@, player, commander, amount, 0)
                == commander_damage_with(entries@, player, commander, amount, i as nat),
        decreases entries@.len() - i,
    {
        if entries[i].player == player && entries[i].commander == commander {
            let damage: u32 = entries[i].damage.saturating_add(amount);
            entries.set(i, CommanderDamageEntry { player, commander, damage });
            return ;
        }
        i = i + 1;
    }
    entries.push(CommanderDamageEntry { player, commander, damage: amount });
}

/// A batch that is being dealt: the game, what has been told of it, and what each player has been
/// dealt.
pub struct Dealing {
    pub play: Play,
    pub totals: Seq<PlayerDamage>,
}

/// One entry of a batch dealt, or prevented. What is prevented counts as no damage; it does not
/// count toward a commander's damage either.
#[verifier::opaque]
pub open spec fn entry_dealt(
    d: Dealing,
    entry: BatchEntry,
    shield: Option<ReplacementId>,
) -> Dealing {
    let target = target_of(entry.assignment);
    let play = if shield is None {
        damage_dealt(d.play, entry.ctx, target, entry.assignment.amount, true)
    } else {
        d.play
    };
    let actual = if shield is None {
        entry.assignment.amount
    } else {
        0
    };
    match target {
        TargetRef::Object(_) => Dealing { play, ..d },
        TargetRef::Player(player) => Dealing {
            play: if entry.source_is_commander && actual > 0 {
                Play {
                    game: Game {
                        commander_damage: commander_damage_with(
                            play.game.commander_damage,
                            player,
                            entry.ctx.source_id,
                            actual,
                            0,
                        ),
                        ..play.game
                    },
                    ..play
                }
            } else {
                play
            },
            totals: totals_with(d.totals, player, entry.ctx.source_id, actual, 0),
        },
    }
}

fn deal_entry(
    state: &mut GameState,
    totals: &mut Vec<PlayerDamage>,
    entry: &BatchEntry,
    shield: Option<ReplacementId>,
    events: &mut Vec<GameEvent>,
)
    ensures
        (Dealing {
            play: Play { game: final(state)@, events: final(events)@ },
            totals: final(totals)@,
        }) == entry_dealt(
            Dealing {
                play: Play { game: old(state)@, events: old(events)@ },
                totals: old(totals)@,
            },
            *entry,
            shield,
        ),
{
    proof {
        reveal(entry_dealt);
    }
    let target = to_target(&entry.assignment);
    let actual_amount: u32 = if shield.is_none() {
        // CR 120.3 + CR 120.4b: Apply the post-replacement event WITHOUT
        // re-running the replacement pipeline.
        apply_damage_after_replacement(
            state,
            &entry.ctx,
            target,
            entry.assignment.amount,
            true,
            events,
        );
        entry.assignment.amount
    } else {
        // Fully prevented — no damage applied.
        0
    };
    if let TargetRef::Player(player) = target {
        // CR 510.2: Track per-source amounts for this step.
        add_to_totals(totals, player, entry.ctx.source_id, actual_amount);
        // CR 704.6c: Track commander combat damage for the 21-damage loss condition.
        if entry.source_is_commander && actual_amount > 0 {
            add_commander_damage(
                &mut state.commander_damage,
                player,
                entry.ctx.source_id,
                actual_amount,
            );
        }
    }
}

/// The first `n` entries of a batch dealt or prevented.
pub open spec fn entries_dealt(
    d: Dealing,
    batch: Seq<BatchEntry>,
    shields: Seq<Option<ReplacementId>>,
    n: nat,
) -> Dealing
    decreases n,
{
    if n == 0 {
        d
    } else {
        entry_dealt(
            entries_dealt(d, batch, shields, (n - 1) as nat),
            batch[n - 1],
            shields[n - 1],
        )
    }
}

/// What is told of the damage to players in a step: one event for each player.
pub open spec fn player_damage_events(totals: Seq<PlayerDamage>) -> Seq<GameEvent> {
    Seq::new(
        totals.len(),
        |i: int|
            GameEvent::CombatDamageDealtToPlayer {
                player_id: totals[i].player_id,
                source_amounts: totals[i].source_amounts,
                total_damage: totals[i].total_damage,
            },
    )
}

fn tell_player_damage(totals: &Vec<PlayerDamage>, events: &mut Vec<GameEvent>)
    ensures
        final(events)@ == old(events)@ + player_damage_events(totals@),
{
    let ghost all = player_damage_events(totals@);
    let mut i: usize = 0;
    assert(events@ =~= old(events)@ + all.take(0));
    while i < totals.len()
        invariant
            i <= totals@.len(),
            all == player_damage_events(totals@),
            events@ =~= old(events)@ + all.take(i as int),
        decreases totals@.len() - i,
    {
        events.push(
            GameEvent::CombatDamageDealtToPlayer {
                player_id: totals[i].player_id,
                source_amounts: totals[i].source_amounts.clone(),
                total_damage: totals[i].total_damage,
            },
        );
        i = i + 1;
    }
    assert(all.take(i as int) =~= all);
}

/// The shield that an identifier stands for, where it is still there.
pub open spec fn shield_at(g: Game, rid: ReplacementId) -> Option<ReplacementDefinition> {
    if rid.source == ObjectId(0) {
        if rid.index < g.pending_damage_replacements.len() {
            Some(g.pending_damage_replacements[rid.index as int])
        } else {
            None
        }
    } else {
        match g.object(rid.source) {
            None => None,
            Some(o) => if rid.index < o.replacement_definitions@.len() {
                Some(o.replacement_definitions@[rid.index as int])
            } else {
                None
            },
        }
    }
}

fn find_shield_at<'a>(state: &'a GameState, rid: &ReplacementId) -> (r: Option<
    &'a ReplacementDefinition,
>)
    ensures
        match r {
            None => shield_at(state@, *rid) is None,
            Some(def) => shield_at(state@, *rid) == Some(*def),
        },
{
    // CR 615.3: Pending shields stand under the identifier 0; the others are found on their
    // host.
    if rid.source == ObjectId(0) {
        if rid.index < state.pending_damage_replacements.len() {
            Some(&state.pending_damage_replacements[rid.index])
        } else {
            None
        }
    } else {
        match state.objects.get(&rid.source) {
            None => None,
            Some(o) => o.replacement_definitions.get(rid.index),
        }
    }
}

/// What prevented damage would have been dealt to, as far as a shield says.
pub open spec fn shielded(def: ReplacementDefinition, source: ObjectId) -> TargetRef {
    match def.damage_target_filter {
        Some(DamageTargetFilter::Player { player: DamageTargetPlayerScope::Specific(p) }) =>
            TargetRef::Player(p),
        _ => TargetRef::Object(source),
    }
}

/// A shield's rider, once, for all that the shield has prevented in a batch.
#[verifier::opaque]
pub open spec fn rider_fired(p: Play, rid: ReplacementId, total: i32) -> Play {
    if total <= 0 {
        p
    } else {
        match shield_at(p.game, rid) {
            None => p,
            Some(def) => {
                let told = Play {
                    events: p.events.push(
                        GameEvent::DamagePrevented {
                            source_id: rid.source,
                            target: shielded(def, rid.source),
                            amount: total as u32,
                        },
                    ),
                    ..p
                };
                match def.runtime_execute {
                    None => told,
                    Some(rider) => tokens_made(
                        Play {
                            game: Game { last_effect_count: Some(total), ..told.game },
                            ..told
                        },
                        *rider,
                    ),
                }
            },
        }
    }
}

fn fire_rider(
    state: &mut GameState,
    rid: ReplacementId,
    total_prevented: i32,
    events: &mut Vec<GameEvent>,
)
    ensures
        (Play { game: final(state)@, events: final(events)@ }) == rider_fired(
            Play { game: old(state)@, events: old(events)@ },
            rid,
            total_prevented,
        ),
{
    proof {
        reveal(rider_fired);
    }
    if total_prevented <= 0 {
        return ;
    }
    let (target, runtime) = match find_shield_at(state, &rid) {
        None => {
            return ;
        },
        Some(def) => (
            match def.damage_target_filter {
                Some(DamageTargetFilter::Player { player: DamageTargetPlayerScope::Specific(p) }) =>
                    TargetRef::Player(p),
                _ => TargetRef::Object(rid.source),
            },
            copy_rc(&def.runtime_execute),
        ),
    };
    // CR 615.13: The `DamagePrevented` event for the whole batch.
    events.push(
        GameEvent::DamagePrevented {
            source_id: rid.source,
            target,
            amount: total_prevented as u32,
        },
    );
    // CR 615.5: Resolve the prevention's additional effect ("for each 1 damage prevented this
    // way, create a token") against the batch total, exactly once.
    if let Some(rider) = runtime {
        state.last_effect_count = Some(total_prevented);
        token::resolve(state, &rider, events);
    }
}

/// The riders of the first `n` shields of a tally.
pub open spec fn riders_fired(p: Play, tally: Seq<(ReplacementId, i32)>, n: nat) -> Play
    decreases n,
{
    if n == 0 {
        p
    } else {
        rider_fired(riders_fired(p, tally, (n - 1) as nat), tally[n - 1].0, tally[n - 1].1)
    }
}

/// CR 615.5 + CR 615.13: After a simultaneous combat-damage batch, fire the rider of each shield
/// that prevented something exactly once, against the aggregate prevented amount.
pub fn fire_combat_prevention_riders(
    state: &mut GameState,
    prevention_tally: &Vec<(ReplacementId, i32)>,
    events: &mut Vec<GameEvent>,
)
    ensures
        (Play { game: final(state)@, events: final(events)@ }) == riders_fired(
            Play { game: old(state)@, events: old(events)@ },
            prevention_tally@,
            prevention_tally@.len(),
        ),
{
    let ghost p = Play { game: state@, events: events@ };
    let mut i: usize = 0;
    while i < prevention_tally.len()
        invariant
            i <= prevention_tally@.len(),
            p == (Play { game: old(state)@, events: old(events)@ }),
            (Play { game: state@, events: events@ }) == riders_fired(
                p,
                prevention_tally@,
                i as nat,
            ),
        decreases prevention_tally@.len() - i,
    {
        let (rid, total) = prevention_tally[i];
        fire_rider(state, rid, total, events);
        i = i + 1;
    }
}

/// A batch of combat damage dealt (CR 510.2): all of it is proposed before any of it is dealt,
/// as far as it can be dealt at all, shields prevent what they cover, the rest is dealt, each
/// damaged player is told of, and the riders of the shields fire.
#[verifier::opaque]
pub open spec fn combat_damage_dealt(g: Game, pending: Seq<(ObjectId, DamageAssignment)>) -> Play {
    let batch = batch_of(g, pending, pending.len());
    let shields = shields_against(g, proposed(batch));
    let tally = prevention_tally(proposed(batch), shields, batch.len());
    let dealt = entries_dealt(
        Dealing {
            play: Play { game: g, events: gates_told(g, pending, pending.len()) },
            totals: seq![],
        },
        batch,
        shields,
        batch.len(),
    );
    riders_fired(
        Play { events: dealt.play.events + player_damage_events(dealt.totals), ..dealt.play },
        tally,
        tally.len(),
    )
}

/// Apply all combat damage assignments simultaneously (CR 510.2).
///
/// Combat damage is one simultaneous event batch (CR 510.2). To keep prevention
/// shields (e.g. Inkshield's "prevent all combat damage ... for each 1 damage
/// prevented, create a token") rules-correct (CR 615.7 — count the amount, not
/// the sources; CR 615.13 — the rider fires once per batch), this runs in phases:
/// collect, replace as a batch, apply with the bookkeeping of combat, and fire the riders.
pub fn apply_combat_damage(
    state: &mut GameState,
    assignments: &Vec<(ObjectId, DamageAssignment)>,
) -> (r: Vec<GameEvent>)
    ensures
        (Play { game: final(state)@, events: r@ }) == combat_damage_dealt(
            old(state)@,
            assignments@,
        ),
{
    proof {
        reveal(combat_damage_dealt);
    }
    let mut events: Vec<GameEvent> = Vec::new();
    // CR 510.2: accumulates per-player, per-source damage for this step only.
    let mut totals: Vec<PlayerDamage> = Vec::new();
    let ghost g = state@;
    // CR 510.2: Collect what can be dealt. Gated assignments (0-damage, protection,
    // prohibition) contribute nothing; what protection has prevented is told.
    let entries = build_batch(state, assignments, &mut events);
    let proposed_damage = propose(&entries);
    let (shields, tally) = replace_combat_damage_batch(state, &proposed_damage);
    let ghost start = Dealing {
        play: Play { game: g, events: gates_told(g, assignments@, assignments@.len()) },
        totals: seq![],
    };
    assert(events@ =~= start.play.events);
    assert(totals@ =~= start.totals);
    let mut i: usize = 0;
    while i < entries.len()
        invariant
            i <= entries@.len(),
            shields@.len() == entries@.len(),
            (Dealing { play: Play { game: state@, events: events@ }, totals: totals@ })
                == entries_dealt(start, entries@, shields@, i as nat),
        decreases entries@.len() - i,
    {
        deal_entry(state, &mut totals, &entries[i], shields[i], &mut events);
        i = i + 1;
    }
    tell_player_damage(&totals, &mut events);
    fire_combat_prevention_riders(state, &tally, &mut events);
    events
}

} // verus!
