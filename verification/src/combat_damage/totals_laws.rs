//! How combat damage adds up: by player, by commander and by the shield that prevents it.

use crate::combat::{DamageAssignment, DamageTarget};
use crate::combat_damage::dealing::{
    batch_entry, batch_of, combat_damage_dealt, commander_damage_with, entries_dealt, entry_dealt,
    gates_told, player_damage_events, proposed, rider_fired, riders_fired, shield_at, shielded,
    target_of, totals_with, BatchEntry, Dealing, PlayerDamage,
};
use crate::damage::{damage_dealt, gate_told, life_changed, permanent_hit, player_hit};
use crate::damage_laws::law_damage_recorded;
use crate::effects::token::{
    token_count, token_created, token_kind, tokens_created, TokenKind,
};
use crate::events::GameEvent;
use crate::ids::{ObjectId, PlayerId, TargetRef};
use crate::replacement::{
    prevention_tally, shields_against, tally_with, ProposedDamage, ReplacementId,
};
use crate::state::{CommanderDamageEntry, Game, Play};
use vstd::prelude::*;

verus! {

/// What is on record for a player, from a place on.
pub open spec fn total_for(totals: Seq<PlayerDamage>, player: PlayerId, from: nat) -> Option<u32>
    decreases totals.len() - from,
{
    if from >= totals.len() {
        None
    } else if totals[from as int].player_id == player {
        Some(totals[from as int].total_damage)
    } else {
        total_for(totals, player, from + 1)
    }
}

/// What is on record for a player from one commander, from a place on.
pub open spec fn commander_total(
    entries: Seq<CommanderDamageEntry>,
    player: PlayerId,
    commander: ObjectId,
    from: nat,
) -> Option<u32>
    decreases entries.len() - from,
{
    if from >= entries.len() {
        None
    } else if entries[from as int].player == player && entries[from as int].commander
        == commander {
        Some(entries[from as int].damage)
    } else {
        commander_total(entries, player, commander, from + 1)
    }
}

/// What a shield has prevented, from a place on.
pub open spec fn prevented_by(tally: Seq<(ReplacementId, i32)>, rid: ReplacementId, from: nat) ->
    Option<i32>
    decreases tally.len() - from,
{
    if from >= tally.len() {
        None
    } else if tally[from as int].0 == rid {
        Some(tally[from as int].1)
    } else {
        prevented_by(tally, rid, from + 1)
    }
}

/// A sum of two amounts, as far as it fits.
pub open spec fn added(before: Option<u32>, amount: u32) -> u32 {
    let sum = amount + (match before {
        None => 0,
        Some(n) => n as int,
    });
    if sum <= u32::MAX {
        sum as u32
    } else {
        u32::MAX
    }
}

proof fn lemma_totals_before(
    totals: Seq<PlayerDamage>,
    player: PlayerId,
    source: ObjectId,
    amount: u32,
    from: nat,
    i: int,
)
    requires
        from <= totals.len(),
        0 <= i < from,
    ensures
        totals_with(totals, player, source, amount, from).len() >= totals.len(),
        totals_with(totals, player, source, amount, from)[i] == totals[i],
    decreases totals.len() - from,
{
    if from < totals.len() && totals[from as int].player_id != player {
        lemma_totals_before(totals, player, source, amount, from + 1, i);
    }
}

proof fn lemma_totals_suffix(
    a: Seq<PlayerDamage>,
    b: Seq<PlayerDamage>,
    player: PlayerId,
    from: nat,
)
    requires
        a.len() == b.len(),
        forall|i: int| from <= i < a.len() ==> a[i] == b[i],
    ensures
        total_for(a, player, from) == total_for(b, player, from),
    decreases a.len() - from,
{
    if from < a.len() {
        lemma_totals_suffix(a, b, player, from + 1);
    }
}

/// Damage to a player adds to what is on record for that player, and to nobody else's.
pub proof fn law_player_total(
    totals: Seq<PlayerDamage>,
    player: PlayerId,
    source: ObjectId,
    amount: u32,
    from: nat,
    q: PlayerId,
)
    requires
        from <= totals.len(),
    ensures
        total_for(totals_with(totals, player, source, amount, from), q, from) == (if q == player {
            Some(added(total_for(totals, player, from), amount))
        } else {
            total_for(totals, q, from)
        }),
    decreases totals.len() - from,
{
    reveal_with_fuel(total_for, 2);
    let r = totals_with(totals, player, source, amount, from);
    if from < totals.len() {
        if totals[from as int].player_id == player {
            lemma_totals_suffix(r, totals, q, from + 1);
        } else {
            law_player_total(totals, player, source, amount, from + 1, q);
            lemma_totals_before(totals, player, source, amount, from + 1, from as int);
        }
    }
}

proof fn lemma_commander_before(
    entries: Seq<CommanderDamageEntry>,
    player: PlayerId,
    commander: ObjectId,
    amount: u32,
    from: nat,
    i: int,
)
    requires
        from <= entries.len(),
        0 <= i < from,
    ensures
        commander_damage_with(entries, player, commander, amount, from).len() >= entries.len(),
        commander_damage_with(entries, player, commander, amount, from)[i] == entries[i],
    decreases entries.len() - from,
{
    if from < entries.len() && !(entries[from as int].player == player
        && entries[from as int].commander == commander) {
        lemma_commander_before(entries, player, commander, amount, from + 1, i);
    }
}

proof fn lemma_commander_suffix(
    a: Seq<CommanderDamageEntry>,
    b: Seq<CommanderDamageEntry>,
    player: PlayerId,
    commander: ObjectId,
    from: nat,
)
    requires
        a.len() == b.len(),
        forall|i: int| from <= i < a.len() ==> a[i] == b[i],
    ensures
        commander_total(a, player, commander, from) == commander_total(b, player, commander, from),
    decreases a.len() - from,
{
    if from < a.len() {
        lemma_commander_suffix(a, b, player, commander, from + 1);
    }
}

/// CR 903.10a: damage from a commander to a player adds to what that commander has dealt to that
/// player, and to no other record.
pub proof fn law_commander_total(
    entries: Seq<CommanderDamageEntry>,
    player: PlayerId,
    commander: ObjectId,
    amount: u32,
    from: nat,
    q: PlayerId,
    other: ObjectId,
)
    requires
        from <= entries.len(),
    ensures
        commander_total(
            commander_damage_with(entries, player, commander, amount, from),
            q,
            other,
            from,
        ) == (if q == player && other == commander {
            Some(added(commander_total(entries, player, commander, from), amount))
        } else {
            commander_total(entries, q, other, from)
        }),
    decreases entries.len() - from,
{
    reveal_with_fuel(commander_total, 2);
    let r = commander_damage_with(entries, player, commander, amount, from);
    if from < entries.len() {
        if entries[from as int].player == player && entries[from as int].commander == commander {
            lemma_commander_suffix(r, entries, q, other, from + 1);
        } else {
            law_commander_total(entries, player, commander, amount, from + 1, q, other);
            lemma_commander_before(entries, player, commander, amount, from + 1, from as int);
        }
    }
}

/// One piece of assigned combat damage that no shield prevents is on the record of commander
/// damage exactly if its source is a commander and it is dealt to a player; one that is prevented
/// never is. Each counts toward what its player is told, prevented damage as none.
pub proof fn law_one_piece(
    d: Dealing,
    g: Game,
    source: ObjectId,
    assignment: DamageAssignment,
    shield: Option<ReplacementId>,
    q: PlayerId,
    other: ObjectId,
)
    requires
        assignment.amount > 0,
    ensures
        ({
            let r = entry_dealt(d, batch_entry(g, source, assignment), shield);
            let before = d.play.game.commander_damage;
            let after = r.play.game.commander_damage;
            let counts = shield is None && g.objects.contains_key(source)
                && g.objects[source].is_commander && assignment.target == DamageTarget::Player(q)
                && other == source;
            &&& counts ==> commander_total(after, q, other, 0) == Some(
                added(commander_total(before, q, other, 0), assignment.amount),
            )
            &&& !counts ==> commander_total(after, q, other, 0) == commander_total(
                before,
                q,
                other,
                0,
            )
            &&& assignment.target == DamageTarget::Player(q) ==> total_for(r.totals, q, 0) == Some(
                added(
                    total_for(d.totals, q, 0),
                    if shield is None {
                        assignment.amount
                    } else {
                        0
                    },
                ),
            )
            &&& assignment.target != DamageTarget::Player(q) ==> total_for(r.totals, q, 0)
                == total_for(d.totals, q, 0)
        }),
{
    reveal(entry_dealt);
    reveal(damage_dealt);
    reveal(player_hit);
    reveal(permanent_hit);
    reveal(life_changed);
    let actual: u32 = if shield is None {
        assignment.amount
    } else {
        0
    };
    if let DamageTarget::Player(player) = assignment.target {
        law_player_total(d.totals, player, source, actual, 0, q);
        law_commander_total(
            d.play.game.commander_damage,
            player,
            source,
            assignment.amount,
            0,
            q,
            other,
        );
    }
}

/// How much of a batch is dealt to a player.
pub open spec fn dealt_to(
    batch: Seq<BatchEntry>,
    shields: Seq<Option<ReplacementId>>,
    player: PlayerId,
    n: nat,
) -> nat
    decreases n,
{
    if n == 0 {
        0
    } else {
        dealt_to(batch, shields, player, (n - 1) as nat) + (if shields[n - 1] is None
            && batch[n - 1].assignment.target == DamageTarget::Player(player) {
            batch[n - 1].assignment.amount as nat
        } else {
            0
        })
    }
}

/// A player is told of just so much combat damage as is dealt to that player in the step, all
/// together.
pub proof fn law_total_told(
    d: Dealing,
    batch: Seq<BatchEntry>,
    shields: Seq<Option<ReplacementId>>,
    n: nat,
    player: PlayerId,
)
    requires
        n <= batch.len(),
        batch.len() == shields.len(),
        d.totals.len() == 0,
        dealt_to(batch, shields, player, n) <= u32::MAX,
    ensures
        ({
            let total = total_for(entries_dealt(d, batch, shields, n).totals, player, 0);
            &&& total is Some ==> total->0 == dealt_to(batch, shields, player, n)
            &&& total is None ==> dealt_to(batch, shields, player, n) == 0
        }),
    decreases n,
{
    if n > 0 {
        law_total_told(d, batch, shields, (n - 1) as nat, player);
        reveal(entry_dealt);
        let before = entries_dealt(d, batch, shields, (n - 1) as nat);
        let entry = batch[n - 1];
        let actual: u32 = if shields[n - 1] is None {
            entry.assignment.amount
        } else {
            0
        };
        if let DamageTarget::Player(hit) = entry.assignment.target {
            law_player_total(before.totals, hit, entry.ctx.source_id, actual, 0, player);
        }
    }
}

/// There is one event for each player on record, with the player's total.
pub proof fn law_players_told(totals: Seq<PlayerDamage>, i: int)
    requires
        0 <= i < totals.len(),
    ensures
        player_damage_events(totals).len() == totals.len(),
        player_damage_events(totals)[i] == (GameEvent::CombatDamageDealtToPlayer {
            player_id: totals[i].player_id,
            source_amounts: totals[i].source_amounts,
            total_damage: totals[i].total_damage,
        }),
{
}

proof fn lemma_entries_told(
    d: Dealing,
    batch: Seq<BatchEntry>,
    shields: Seq<Option<ReplacementId>>,
    n: nat,
)
    ensures
        d.play.events.is_prefix_of(entries_dealt(d, batch, shields, n).play.events),
    decreases n,
{
    if n > 0 {
        lemma_entries_told(d, batch, shields, (n - 1) as nat);
        reveal(entry_dealt);
        let before = entries_dealt(d, batch, shields, (n - 1) as nat);
        let entry = batch[n - 1];
        law_damage_recorded(
            before.play,
            entry.ctx,
            target_of(entry.assignment),
            entry.assignment.amount,
            true,
        );
    }
}

proof fn lemma_tokens_told(p: Play, kind: TokenKind, controller: PlayerId, n: nat)
    ensures
        p.events.is_prefix_of(tokens_created(p, kind, controller, n).events),
    decreases n,
{
    if n > 0 {
        lemma_tokens_told(p, kind, controller, (n - 1) as nat);
        reveal(token_created);
    }
}

proof fn lemma_rider_told(p: Play, rid: ReplacementId, total: i32)
    ensures
        p.events.is_prefix_of(rider_fired(p, rid, total).events),
{
    reveal(rider_fired);
    if total > 0 && shield_at(p.game, rid) is Some {
        let def = shield_at(p.game, rid)->0;
        let told = p.events.push(
            GameEvent::DamagePrevented {
                source_id: rid.source,
                target: shielded(def, rid.source),
                amount: total as u32,
            },
        );
        assert(p.events.is_prefix_of(told));
        if def.runtime_execute is Some {
            let rider = *def.runtime_execute->0;
            let start = Play {
                game: Game { last_effect_count: Some(total), ..p.game },
                events: told,
            };
            let kind = token_kind(start.game, rider);
            let number = token_count(start.game, rider);
            lemma_tokens_told(start, kind, rider.controller, number);
        }
    }
}

proof fn lemma_riders_told(p: Play, tally: Seq<(ReplacementId, i32)>, n: nat)
    ensures
        p.events.is_prefix_of(riders_fired(p, tally, n).events),
    decreases n,
{
    if n > 0 {
        lemma_riders_told(p, tally, (n - 1) as nat);
        let before = riders_fired(p, tally, (n - 1) as nat);
        lemma_rider_told(before, tally[n - 1].0, tally[n - 1].1);
    }
}

/// What is told of a step's combat damage begins with what protection kept off, goes on with what
/// is dealt, then tells each player of the player's total, and only then of what shields have
/// prevented (CR 510.2, CR 615.13).
pub proof fn law_told_in_order(g: Game, pending: Seq<(ObjectId, DamageAssignment)>)
    ensures
        ({
            let kept_off = gates_told(g, pending, pending.len());
            let batch = batch_of(g, pending, pending.len());
            let shields = shields_against(g, proposed(batch));
            let start = Dealing { play: Play { game: g, events: kept_off }, totals: seq![] };
            let dealt = entries_dealt(start, batch, shields, batch.len());
            let told = combat_damage_dealt(g, pending).events;
            &&& kept_off.is_prefix_of(dealt.play.events)
            &&& (dealt.play.events + player_damage_events(dealt.totals)).is_prefix_of(told)
        }),
{
    reveal(combat_damage_dealt);
    let batch = batch_of(g, pending, pending.len());
    let shields = shields_against(g, proposed(batch));
    let start = Dealing {
        play: Play { game: g, events: gates_told(g, pending, pending.len()) },
        totals: seq![],
    };
    lemma_entries_told(start, batch, shields, batch.len());
    let dealt = entries_dealt(start, batch, shields, batch.len());
    let tally = prevention_tally(proposed(batch), shields, batch.len());
    lemma_riders_told(
        Play { events: dealt.play.events + player_damage_events(dealt.totals), ..dealt.play },
        tally,
        tally.len(),
    );
}

/// What protection keeps off is told assignment by assignment.
pub proof fn law_kept_off_told(g: Game, pending: Seq<(ObjectId, DamageAssignment)>, n: nat)
    requires
        n < pending.len(),
    ensures
        gates_told(g, pending, 0).len() == 0,
        gates_told(g, pending, n + 1) == gates_told(g, pending, n) + gate_told(
            g,
            pending[n as int].0,
            match pending[n as int].1.target {
                DamageTarget::Object(id) => TargetRef::Object(id),
                DamageTarget::Player(id) => TargetRef::Player(id),
            },
            pending[n as int].1.amount,
        ),
{
}

proof fn lemma_tally_before(
    tally: Seq<(ReplacementId, i32)>,
    rid: ReplacementId,
    amount: u32,
    from: nat,
    i: int,
)
    requires
        from <= tally.len(),
        0 <= i < from,
    ensures
        tally_with(tally, rid, amount, from).len() >= tally.len(),
        tally_with(tally, rid, amount, from)[i] == tally[i],
    decreases tally.len() - from,
{
    if from < tally.len() && tally[from as int].0 != rid {
        lemma_tally_before(tally, rid, amount, from + 1, i);
    }
}

proof fn lemma_tally_suffix(
    a: Seq<(ReplacementId, i32)>,
    b: Seq<(ReplacementId, i32)>,
    rid: ReplacementId,
    from: nat,
)
    requires
        a.len() == b.len(),
        forall|i: int| from <= i < a.len() ==> a[i] == b[i],
    ensures
        prevented_by(a, rid, from) == prevented_by(b, rid, from),
    decreases a.len() - from,
{
    if from < a.len() {
        lemma_tally_suffix(a, b, rid, from + 1);
    }
}

proof fn lemma_tallied(
    tally: Seq<(ReplacementId, i32)>,
    rid: ReplacementId,
    amount: u32,
    from: nat,
    other: ReplacementId,
)
    requires
        from <= tally.len(),
    ensures
        other != rid ==> prevented_by(tally_with(tally, rid, amount, from), other, from)
            == prevented_by(tally, other, from),
        ({
            let had = match prevented_by(tally, rid, from) {
                None => 0int,
                Some(n) => n as int,
            };
            0 <= had && had + amount <= i32::MAX ==> prevented_by(
                tally_with(tally, rid, amount, from),
                rid,
                from,
            ) == Some((had + amount) as i32)
        }),
    decreases tally.len() - from,
{
    reveal_with_fuel(prevented_by, 2);
    let r = tally_with(tally, rid, amount, from);
    if from < tally.len() {
        if tally[from as int].0 == rid {
            lemma_tally_suffix(r, tally, other, from + 1);
        } else {
            lemma_tallied(tally, rid, amount, from + 1, other);
            lemma_tally_before(tally, rid, amount, from + 1, from as int);
        }
    }
}

/// How much of some damage a shield prevents.
pub open spec fn kept_off(
    batch: Seq<ProposedDamage>,
    shields: Seq<Option<ReplacementId>>,
    rid: ReplacementId,
    n: nat,
) -> nat
    decreases n,
{
    if n == 0 {
        0
    } else {
        kept_off(batch, shields, rid, (n - 1) as nat) + (if shields[n - 1] == Some(rid) {
            batch[n - 1].amount as nat
        } else {
            0
        })
    }
}

/// CR 615.7, CR 615.13: what a shield is counted to have prevented is all that it prevented in the
/// batch together.
pub proof fn law_prevented(
    batch: Seq<ProposedDamage>,
    shields: Seq<Option<ReplacementId>>,
    rid: ReplacementId,
    n: nat,
)
    requires
        n <= batch.len(),
        batch.len() == shields.len(),
        kept_off(batch, shields, rid, n) <= i32::MAX,
    ensures
        ({
            let total = prevented_by(prevention_tally(batch, shields, n), rid, 0);
            &&& total is Some ==> total->0 == kept_off(batch, shields, rid, n)
            &&& total is None ==> kept_off(batch, shields, rid, n) == 0
        }),
    decreases n,
{
    if n > 0 {
        law_prevented(batch, shields, rid, (n - 1) as nat);
        let before = prevention_tally(batch, shields, (n - 1) as nat);
        if let Some(by) = shields[n - 1] {
            lemma_tallied(before, by, batch[n - 1].amount, 0, rid);
        }
    }
}

} // verus!
