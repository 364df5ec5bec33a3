//! Which of the assigned damage is dealt: what protection, prohibitions and shields keep off, and
//! what goes on record.

use crate::ability::{
    DamageTargetFilter, DamageTargetPlayerScope, Keyword, ProtectionTarget, ReplacementDefinition,
    StaticDefinition, TokenRider,
};
use crate::combat::{DamageAssignment, DamageTarget};
use crate::combat_damage::dealing::{
    batch_entry, batch_of, combat_damage_dealt, entries_dealt, entry_dealt, gates_told,
    player_damage_events, proposed, rider_fired, riders_fired, shield_at, target_of, BatchEntry,
    Dealing,
};
use crate::damage::{
    damage_source, gate_told, passes_gate, permanent_prohibits, prohibited, statics_prohibit,
};
use crate::damage_laws::law_damage_recorded;
use crate::effects::token::{
    token_count, token_created, token_kind, tokens_created, tokens_made, TokenKind,
};
use crate::events::GameEvent;
use crate::functioning::static_applies;
use crate::ids::{ObjectId, PlayerId, TargetRef, Zone};
use crate::list::{list_rest, List};
use crate::object::GameObject;
use crate::protection::{has_protection, keywords_protect};
use crate::replacement::{
    covers, hosted_index, hosted_shield, pending_shield, prevention_tally, shield_against,
    shields_against, ProposedDamage, ReplacementId,
};
use crate::state::{lemma_first_seat, DamageRecord, Game, Play};
use crate::triggers::watch_laws::{asked_by, lets_object, lets_player};
use crate::zones::put_in;
use std::rc::Rc;
use vstd::prelude::*;

verus! {

/// An object has protection from another exactly if one of its keywords is protection from a
/// color or a card type that the other has, or from everything (CR 702.16a).
pub proof fn law_protection(g: Game, id: ObjectId, source: ObjectId)
    ensures
        has_protection(g, id, source) <==> (g.objects.contains_key(id) && g.objects.contains_key(
            source,
        ) && exists|i: int|
            0 <= i < g.objects[id].keywords@.len() && protects(
                #[trigger] g.objects[id].keywords@[i],
                g.objects[source],
            )),
{
    lemma_keywords_protect(g.objects[id].keywords, g.objects[source]);
}

/// Whether a keyword is protection from an object.
pub open spec fn protects(keyword: Keyword, source: GameObject) -> bool {
    match keyword {
        Keyword::Protection(ProtectionTarget::Color(color)) => source.colors@.contains(color),
        Keyword::Protection(ProtectionTarget::CardType(kind)) =>
            source.card_types.core_types@.contains(kind),
        Keyword::Protection(ProtectionTarget::Everything) => true,
        _ => false,
    }
}

proof fn lemma_keywords_protect(keywords: List<Keyword>, source: GameObject)
    ensures
        keywords_protect(keywords, source) <==> exists|i: int|
            0 <= i < keywords@.len() && protects(#[trigger] keywords@[i], source),
    decreases keywords,
{
    if keywords.node is Some {
        let rest = list_rest(keywords);
        lemma_keywords_protect(rest, source);
        let items = keywords@;
        let tail = rest@;
        assert(items[0] == *keywords.node->0.item);
        assert(items.len() == tail.len() + 1);
        assert forall|j: int| 0 < j < items.len() implies #[trigger] items[j] == tail[j - 1] by {}
        if keywords_protect(rest, source) {
            let j = choose|j: int| 0 <= j < tail.len() && protects(#[trigger] tail[j], source);
            assert(items[j + 1] == tail[j]);
        }
    }
}

/// Whether a static ability of an object prohibits damage from a source to a target: it applies,
/// it affects the source, and the target is such a recipient as it names.
pub open spec fn prohibits(
    g: Game,
    o: GameObject,
    def: StaticDefinition,
    source: ObjectId,
    target: TargetRef,
) -> bool {
    &&& static_applies(g, o, def)
    &&& def.mode is ProhibitDamage
    &&& lets_object(g, def.affected, source, asked_by(g, o.id))
    &&& match target {
        TargetRef::Object(id) => lets_object(
            g,
            def.mode->recipient,
            id,
            asked_by(g, o.id),
        ),
        TargetRef::Player(p) => lets_player(def.mode->recipient, p, asked_by(g, o.id)),
    }
}

/// Damage is prohibited exactly if a static ability of a permanent prohibits it (CR 614.17).
pub proof fn law_prohibited(g: Game, source: ObjectId, target: TargetRef)
    ensures
        prohibited(g, source, target) <==> exists|i: int|
            0 <= i < g.battlefield.len() && g.objects.contains_key(#[trigger] g.battlefield[i])
                && some_prohibits(
                g,
                g.objects[g.battlefield[i]],
                g.objects[g.battlefield[i]].static_definitions@,
                source,
                target,
            ),
{
    reveal(prohibited);
    assert forall|i: int| 0 <= i < g.battlefield.len() implies (permanent_prohibits(
        g,
        #[trigger] g.battlefield[i],
        source,
        target,
    ) <==> g.objects.contains_key(g.battlefield[i]) && some_prohibits(
        g,
        g.objects[g.battlefield[i]],
        g.objects[g.battlefield[i]].static_definitions@,
        source,
        target,
    )) by {
        let o = g.objects[g.battlefield[i]];
        lemma_statics_prohibit(g, o, o.static_definitions, source, target);
    }
}

/// Whether one of some static abilities prohibits the damage.
pub open spec fn some_prohibits(
    g: Game,
    o: GameObject,
    defs: Seq<StaticDefinition>,
    source: ObjectId,
    target: TargetRef,
) -> bool {
    exists|k: int| 0 <= k < defs.len() && prohibits(g, o, #[trigger] defs[k], source, target)
}

proof fn lemma_statics_prohibit(
    g: Game,
    o: GameObject,
    defs: List<StaticDefinition>,
    source: ObjectId,
    target: TargetRef,
)
    ensures
        statics_prohibit(g, o, defs, source, target) <==> some_prohibits(
            g,
            o,
            defs@,
            source,
            target,
        ),
    decreases defs,
{
    if defs.node is Some {
        let rest = list_rest(defs);
        lemma_statics_prohibit(g, o, rest, source, target);
        let items = defs@;
        let tail = rest@;
        assert(items[0] == *defs.node->0.item);
        assert(items.len() == tail.len() + 1);
        assert forall|j: int| 0 < j < items.len() implies #[trigger] items[j] == tail[j - 1] by {}
        if statics_prohibit(g, o, rest, source, target) {
            let j = choose|j: int|
                0 <= j < tail.len() && prohibits(g, o, #[trigger] tail[j], source, target);
            assert(items[j + 1] == tail[j]);
        }
    }
}

/// Whether a shield prevents some damage: combat damage at least, and to the player, to any player
/// or to the object that it names, if it names one.
pub open spec fn shields_from(
    def: ReplacementDefinition,
    target: TargetRef,
    is_combat: bool,
) -> bool {
    &&& def.combat_only ==> is_combat
    &&& match def.damage_target_filter {
        None => true,
        Some(DamageTargetFilter::Player { player: DamageTargetPlayerScope::Specific(p) }) => target
            == TargetRef::Player(p),
        Some(DamageTargetFilter::Player { player: DamageTargetPlayerScope::Any }) =>
            target is Player,
        Some(DamageTargetFilter::Object { id }) => target == TargetRef::Object(id),
    }
}

/// There is a shield against some damage exactly if a pending one prevents it or one on a
/// permanent does; the first pending one goes before all others (CR 615.3).
pub proof fn law_shielded(g: Game, damage: ProposedDamage)
    requires
        forall|id: ObjectId|
            g.objects.contains_key(id) ==> (
            #[trigger] g.objects[id]).replacement_definitions@.len() <= usize::MAX,
    ensures
        shield_against(g, damage) is Some <==> (exists|i: int|
            0 <= i < g.pending_damage_replacements.len() && shields_from(
                #[trigger] g.pending_damage_replacements[i],
                damage.target,
                damage.is_combat,
            )) || (exists|i: int| #[trigger] hosts_shield(g, i, damage)),
{
    reveal(shield_against);
    lemma_pending_shield(g.pending_damage_replacements, damage, 0);
    lemma_hosted_shield(g, damage, 0);
}

/// Whether the permanent at an index has a shield that prevents some damage.
pub open spec fn hosts_shield(g: Game, i: int, damage: ProposedDamage) -> bool {
    &&& 0 <= i < g.battlefield.len()
    &&& g.objects.contains_key(g.battlefield[i])
    &&& exists|k: int|
        0 <= k < g.objects[g.battlefield[i]].replacement_definitions@.len() && shields_from(
            #[trigger] g.objects[g.battlefield[i]].replacement_definitions@[k],
            damage.target,
            damage.is_combat,
        )
}

proof fn lemma_pending_shield(
    shields: Seq<ReplacementDefinition>,
    damage: ProposedDamage,
    from: nat,
)
    requires
        from <= shields.len(),
    ensures
        pending_shield(shields, damage, from) is Some <==> exists|i: int|
            from <= i < shields.len() && shields_from(
                #[trigger] shields[i],
                damage.target,
                damage.is_combat,
            ),
    decreases shields.len() - from,
{
    if from < shields.len() && !covers(shields[from as int], damage) {
        lemma_pending_shield(shields, damage, from + 1);
    }
}

proof fn lemma_hosted_index(
    shields: List<ReplacementDefinition>,
    damage: ProposedDamage,
    index: usize,
)
    requires
        index + shields@.len() <= usize::MAX,
    ensures
        hosted_index(shields, damage, index) is Some <==> exists|k: int|
            0 <= k < shields@.len() && shields_from(
                #[trigger] shields@[k],
                damage.target,
                damage.is_combat,
            ),
    decreases shields,
{
    if shields.node is Some {
        let rest = list_rest(shields);
        let items = shields@;
        let tail = rest@;
        assert(items[0] == *shields.node->0.item);
        assert(items.len() == tail.len() + 1);
        assert forall|j: int| 0 < j < items.len() implies #[trigger] items[j] == tail[j - 1] by {}
        if !covers(items[0], damage) {
            lemma_hosted_index(rest, damage, (index + 1) as usize);
            if hosted_index(rest, damage, (index + 1) as usize) is Some {
                let j = choose|j: int|
                    0 <= j < tail.len() && shields_from(
                        #[trigger] tail[j],
                        damage.target,
                        damage.is_combat,
                    );
                assert(items[j + 1] == tail[j]);
            }
        }
    }
}

proof fn lemma_hosted_shield(g: Game, damage: ProposedDamage, from: nat)
    requires
        from <= g.battlefield.len(),
        forall|id: ObjectId|
            g.objects.contains_key(id) ==> (
            #[trigger] g.objects[id]).replacement_definitions@.len() <= usize::MAX,
    ensures
        hosted_shield(g, damage, from) is Some <==> exists|i: int|
            from <= i && #[trigger] hosts_shield(g, i, damage),
    decreases g.battlefield.len() - from,
{
    if from < g.battlefield.len() {
        let id = g.battlefield[from as int];
        if g.objects.contains_key(id) {
            lemma_hosted_index(g.objects[id].replacement_definitions, damage, 0);
        }
        assert(hosts_shield(g, from as int, damage) <==> g.objects.contains_key(id)
            && hosted_index(g.objects[id].replacement_definitions, damage, 0) is Some) by {
            let defs = g.objects[id].replacement_definitions@;
            if hosts_shield(g, from as int, damage) {
                let k = choose|k: int|
                    0 <= k < g.objects[g.battlefield[from as int]].replacement_definitions@.len()
                        && shields_from(
                        #[trigger] g.objects[g.battlefield[from as int]].replacement_definitions@[k],
                        damage.target,
                        damage.is_combat,
                    );
                assert(shields_from(defs[k], damage.target, damage.is_combat));
            }
        }
        if !hosts_shield(g, from as int, damage) {
            lemma_hosted_shield(g, damage, from + 1);
        }
    }
}

/// What an assignment is aimed at.
pub open spec fn aimed_at(assignment: DamageAssignment) -> TargetRef {
    match assignment.target {
        DamageTarget::Object(id) => TargetRef::Object(id),
        DamageTarget::Player(id) => TargetRef::Player(id),
    }
}

/// Whether assigned combat damage is dealt: there is some; what it is aimed at is a player in the
/// game or an object on the battlefield; nothing prohibits it, no protection of the target is from
/// its source, and no shield prevents it.
pub open spec fn comes_through(g: Game, source: ObjectId, assignment: DamageAssignment) -> bool {
    &&& assignment.amount > 0
    &&& match assignment.target {
        DamageTarget::Object(id) => g.objects.contains_key(id) && g.objects[id].zone
            == Zone::Battlefield && !has_protection(g, id, source),
        DamageTarget::Player(player) => exists|i: int|
            0 <= i < g.players.len() && (#[trigger] g.players[i]).id == player,
    }
    &&& !prohibited(g, source, aimed_at(assignment))
    &&& shield_against(
        g,
        ProposedDamage {
            target: aimed_at(assignment),
            amount: assignment.amount,
            is_combat: true,
        },
    ) is None
}

/// What goes on record of some assigned combat damage: that which comes through, in its order.
pub open spec fn records_of(g: Game, pending: Seq<(ObjectId, DamageAssignment)>) -> Seq<
    DamageRecord,
>
    decreases pending.len(),
{
    if pending.len() == 0 {
        seq![]
    } else {
        let before = records_of(g, pending.drop_last());
        let (source, assignment) = pending.last();
        if comes_through(g, source, assignment) {
            before.push(
                DamageRecord {
                    source_id: source,
                    source_controller: damage_source(g, source).controller,
                    target: aimed_at(assignment),
                    amount: assignment.amount,
                    is_combat: true,
                },
            )
        } else {
            before
        }
    }
}

proof fn lemma_entries_prefix(
    d: Dealing,
    a: Seq<BatchEntry>,
    b: Seq<BatchEntry>,
    s: Seq<Option<ReplacementId>>,
    t: Seq<Option<ReplacementId>>,
    n: nat,
)
    requires
        n <= a.len(),
        a.len() <= b.len(),
        a.len() == s.len(),
        b.len() == t.len(),
        forall|i: int| 0 <= i < n ==> #[trigger] a[i] == b[i],
        forall|i: int| 0 <= i < n ==> #[trigger] s[i] == t[i],
    ensures
        entries_dealt(d, a, s, n) == entries_dealt(d, b, t, n),
    decreases n,
{
    if n > 0 {
        lemma_entries_prefix(d, a, b, s, t, (n - 1) as nat);
        assert(a[n - 1] == b[n - 1]);
        assert(s[n - 1] == t[n - 1]);
    }
}

proof fn lemma_batch_recorded(g: Game, pending: Seq<(ObjectId, DamageAssignment)>, n: nat, d: Dealing)
    requires
        n <= pending.len(),
        d.play.game == g,
    ensures
        ({
            let batch = batch_of(g, pending, n);
            let shields = shields_against(g, proposed(batch));
            entries_dealt(
                d,
                batch,
                shields,
                batch.len(),
            ).play.game.damage_dealt_this_turn == g.damage_dealt_this_turn + records_of(
                g,
                pending.take(n as int),
            )
        }),
    decreases n,
{
    let part = pending.take(n as int);
    if n == 0 {
        assert(g.damage_dealt_this_turn + records_of(g, part) =~= g.damage_dealt_this_turn);
    } else {
        lemma_batch_recorded(g, pending, (n - 1) as nat, d);
        let (source, assignment) = pending[n - 1];
        let before = batch_of(g, pending, (n - 1) as nat);
        let batch = batch_of(g, pending, n);
        let old_shields = shields_against(g, proposed(before));
        let shields = shields_against(g, proposed(batch));
        assert(part.drop_last() =~= pending.take(n - 1));
        assert(part.last() == pending[n - 1]);
        let k = before.len();
        if let DamageTarget::Player(player) = assignment.target {
            lemma_first_seat(g.players, player, 0);
        }
        if passes_gate(g, source, target_of(assignment), assignment.amount) {
            let entry = batch_entry(g, source, assignment);
            assert(batch == before.push(entry));
            assert forall|i: int| 0 <= i < k implies #[trigger] before[i] == batch[i] by {}
            assert forall|i: int| 0 <= i < k implies #[trigger] old_shields[i] == shields[i] by {}
            lemma_entries_prefix(d, before, batch, old_shields, shields, k);
            let so_far = entries_dealt(d, batch, shields, k);
            let now = entries_dealt(d, batch, shields, batch.len());
            assert(now == entry_dealt(so_far, entry, shields[k as int]));
            reveal(entry_dealt);
            law_damage_recorded(
                so_far.play,
                entry.ctx,
                target_of(assignment),
                assignment.amount,
                true,
            );
            if comes_through(g, source, assignment) {
                assert(shields[k as int] is None);
                assert(now.play.game.damage_dealt_this_turn =~= g.damage_dealt_this_turn
                    + records_of(g, part));
            } else {
                assert(shields[k as int] is Some);
            }
        } else {
            assert(batch == before);
            assert(!comes_through(g, source, assignment));
        }
    }
}

proof fn lemma_tokens_keep_damage(p: Play, kind: TokenKind, controller: PlayerId, n: nat)
    ensures
        tokens_created(p, kind, controller, n).game.damage_dealt_this_turn
            == p.game.damage_dealt_this_turn,
    decreases n,
{
    if n > 0 {
        lemma_tokens_keep_damage(p, kind, controller, (n - 1) as nat);
        reveal(token_created);
        reveal(put_in);
    }
}

proof fn lemma_made_keeps_damage(p: Play, rider: Rc<TokenRider>)
    ensures
        tokens_made(p, *rider).game.damage_dealt_this_turn == p.game.damage_dealt_this_turn,
{
    let made = *rider;
    let kind = token_kind(p.game, made);
    let number = token_count(p.game, made);
    lemma_tokens_keep_damage(p, kind, rider.controller, number);
}

proof fn lemma_riders_keep_damage(p: Play, tally: Seq<(ReplacementId, i32)>, n: nat)
    ensures
        riders_fired(p, tally, n).game.damage_dealt_this_turn == p.game.damage_dealt_this_turn,
    decreases n,
{
    if n > 0 {
        lemma_riders_keep_damage(p, tally, (n - 1) as nat);
        let before = riders_fired(p, tally, (n - 1) as nat);
        reveal(rider_fired);
        let rid = tally[n - 1].0;
        let total = tally[n - 1].1;
        if total > 0 && shield_at(before.game, rid) is Some {
            let def = shield_at(before.game, rid)->0;
            if def.runtime_execute is Some {
                let rider = def.runtime_execute->0;
                let told = Play {
                    game: Game { last_effect_count: Some(total), ..before.game },
                    events: before.events.push(
                        GameEvent::DamagePrevented {
                            source_id: rid.source,
                            target: crate::combat_damage::dealing::shielded(def, rid.source),
                            amount: total as u32,
                        },
                    ),
                };
                lemma_made_keeps_damage(told, rider);
            }
        }
    }
}

/// Of the combat damage that is assigned, just that which comes through is dealt, each once, with
/// its amount and as combat damage, in the order in which it was assigned (CR 510.2).
pub proof fn law_dealt_as_assigned(g: Game, pending: Seq<(ObjectId, DamageAssignment)>)
    ensures
        combat_damage_dealt(g, pending).game.damage_dealt_this_turn == g.damage_dealt_this_turn
            + records_of(g, pending),
{
    reveal(combat_damage_dealt);
    let n = pending.len();
    let batch = batch_of(g, pending, n);
    let shields = shields_against(g, proposed(batch));
    let tally = prevention_tally(proposed(batch), shields, batch.len());
    let start = Dealing {
        play: Play { game: g, events: gates_told(g, pending, n) },
        totals: seq![],
    };
    lemma_batch_recorded(g, pending, n, start);
    assert(pending.take(n as int) =~= pending);
    let dealt = entries_dealt(start, batch, shields, batch.len());
    lemma_riders_keep_damage(
        Play { events: dealt.play.events + player_damage_events(dealt.totals), ..dealt.play },
        tally,
        tally.len(),
    );
}

/// Damage that protection keeps off is told as prevented; damage that is prohibited, or that there
/// is nothing to deal to, is not told at all (CR 702.16e, CR 614.17).
pub proof fn law_protection_told(
    g: Game,
    source: ObjectId,
    id: ObjectId,
    player: PlayerId,
    amount: u32,
)
    ensures
        ({
            let target = TargetRef::Object(id);
            let told = gate_told(g, source, target, amount);
            let there = amount > 0 && g.objects.contains_key(id) && g.objects[id].zone
                == Zone::Battlefield && !prohibited(g, source, target);
            &&& there && has_protection(g, id, source) ==> told == seq![
                GameEvent::DamagePrevented { source_id: source, target, amount },
            ]
            &&& !(there && has_protection(g, id, source)) ==> told.len() == 0
            &&& gate_told(g, source, TargetRef::Player(player), amount).len() == 0
        }),
{
}

/// A shield's rider fires for what the shield has prevented: that it did is told, with the whole
/// amount, and then the tokens are made that the rider makes. A shield that is gone, or that has
/// prevented nothing, does nothing (CR 615.5, CR 615.13).
pub proof fn law_rider(p: Play, rid: ReplacementId, total: i32)
    ensures
        total <= 0 ==> rider_fired(p, rid, total) == p,
        shield_at(p.game, rid) is None ==> rider_fired(p, rid, total) == p,
        total > 0 && shield_at(p.game, rid) is Some ==> {
            let def = shield_at(p.game, rid)->0;
            let target = match def.damage_target_filter {
                Some(DamageTargetFilter::Player { player: DamageTargetPlayerScope::Specific(q) }) =>
                    TargetRef::Player(q),
                _ => TargetRef::Object(rid.source),
            };
            let told = p.events.push(
                GameEvent::DamagePrevented { source_id: rid.source, target, amount: total as u32 },
            );
            &&& def.runtime_execute is None ==> rider_fired(p, rid, total) == (Play {
                events: told,
                ..p
            })
            &&& def.runtime_execute is Some ==> rider_fired(p, rid, total) == tokens_made(
                Play {
                    game: Game { last_effect_count: Some(total), ..p.game },
                    events: told,
                },
                *def.runtime_execute->0,
            )
        },
{
    reveal(rider_fired);
}

} // verus!
