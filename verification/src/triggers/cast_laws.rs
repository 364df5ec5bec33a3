//! The triggers of a spell that is being cast: storm, cascade and casualty.

use crate::ability::{
    count_kind, AbilityCondition, Effect, Keyword, QuantityExpr, ResolvedAbility, SpellContext,
    StaticDefinition, TargetFilter, TriggerCondition,
};
use crate::casting::{effective_keywords, grants_by, grants_of, static_grants};
use crate::events::GameEvent;
use crate::filter::{object_matches, FilterContext};
use crate::functioning::static_applies;
use crate::ids::{CardId, KeywordKind, ObjectId, PlayerId};
use crate::list::{list_rest, List};
use crate::object::GameObject;
use crate::speed::{speed_of, speed_trigger_free, speed_trigger_spent};
use crate::state::{lemma_first_seat, CastHistory, Game, StackEntry, StackEntryKind};
use crate::text::Text;
use crate::triggers::collect::PendingTriggerContext;
use crate::triggers::found_laws::{bare_ability, bare_trigger};
use crate::triggers::rules::{
    additional_cost_paid, after_cast_triggers, cascade_instances, cast_triggers, casts_this_turn,
    casualty_instances, stack_entry, stamp_after, stamped_copies, storm_copies, storm_instances,
};
use crate::triggers::PendingTrigger;
use std::rc::Rc;
use vstd::prelude::*;

verus! {

/// How many spells some records of casts hold together.
pub open spec fn spells_in(histories: Seq<CastHistory>) -> nat
    decreases histories.len(),
{
    if histories.len() == 0 {
        0
    } else {
        spells_in(histories.drop_last()) + histories.last().spells@.len()
    }
}

proof fn lemma_casts(g: Game, n: nat)
    requires
        n <= g.spells_cast_this_turn_by_player.len(),
    ensures
        casts_this_turn(g, n) == spells_in(g.spells_cast_this_turn_by_player.take(n as int)),
    decreases n,
{
    if n > 0 {
        lemma_casts(g, (n - 1) as nat);
        let all = g.spells_cast_this_turn_by_player;
        assert(all.take(n as int).drop_last() =~= all.take(n - 1));
    }
}

/// Storm copies a spell once for each other spell cast this turn, by whoever: the spell itself is
/// among those recorded, and does not count (CR 702.40a).
pub proof fn law_storm_copies(g: Game)
    ensures
        ({
            let casts = spells_in(g.spells_cast_this_turn_by_player);
            &&& casts == 0 ==> storm_copies(g) == 0
            &&& 0 < casts <= i32::MAX ==> storm_copies(g) == casts - 1
        }),
{
    let all = g.spells_cast_this_turn_by_player;
    lemma_casts(g, all.len());
    assert(all.take(all.len() as int) =~= all);
}

proof fn lemma_stamped(template: PendingTrigger, stamp: u64, n: nat)
    ensures
        stamped_copies(template, stamp, n).len() == n,
        forall|k: int|
            0 <= k < n ==> same_but_stamp(
                #[trigger] stamped_copies(template, stamp, n)[k],
                template,
            ),
    decreases n,
{
    if n > 0 {
        lemma_stamped(template, stamp, (n - 1) as nat);
        let before = stamped_copies(template, stamp, (n - 1) as nat);
        let now = stamped_copies(template, stamp, n);
        assert forall|k: int| 0 <= k < n implies same_but_stamp(#[trigger] now[k], template) by {
            if k < n - 1 {
                assert(now[k] == before[k]);
            }
        }
    }
}

/// Whether a trigger is another in all but its timestamp.
pub open spec fn same_but_stamp(x: PendingTriggerContext, t: PendingTrigger) -> bool {
    x.pending == PendingTrigger { timestamp: x.pending.timestamp, ..t }
}

/// The copies that storm makes.
pub open spec fn storm_ability(spell: ObjectId, caster: PlayerId, copies: i32) -> ResolvedAbility {
    ResolvedAbility {
        repeat_for: Some(Rc::new(QuantityExpr::Fixed { value: copies })),
        ..bare_ability(Effect::CopySpell { target: TargetFilter::SelfRef }, spell, caster)
    }
}

/// The copy that casualty makes, once its cost is paid.
pub open spec fn casualty_ability(spell: ObjectId, controller: PlayerId) -> ResolvedAbility {
    let plain = bare_ability(
        Effect::CopySpell { target: TargetFilter::SelfRef },
        spell,
        controller,
    );
    ResolvedAbility {
        condition: Some(AbilityCondition::AdditionalCostPaid),
        context: SpellContext { additional_cost_paid: true, ..plain.context },
        ..plain
    }
}

/// A trigger that happens because a spell was cast.
pub open spec fn when_cast(
    spell: ObjectId,
    controller: PlayerId,
    ability: ResolvedAbility,
    event: GameEvent,
    name: &'static str,
) -> PendingTrigger {
    bare_trigger(
        spell,
        controller,
        Some(Rc::new(TriggerCondition::WasCast)),
        ability,
        0,
        event,
        Some(Text::Literal(name)),
        None,
    ).pending
}

/// A spell that is cast brings one trigger for each instance of storm that it has or is given,
/// which copies it as often as other spells were cast this turn; then one for each cascade of its
/// own; and then, if it prints no additional cost and the one it was given was paid, one copy for
/// each instance of casualty. Storm is the caster's, the others the controller's of the spell.
/// Nothing else that happens brings any of these (CR 702.40a, CR 702.85a, CR 702.153a).
pub proof fn law_cast_triggers(
    g: Game,
    card_id: CardId,
    caster: PlayerId,
    spell: ObjectId,
    other: GameEvent,
)
    requires
        g.objects.contains_key(spell),
        effective_keywords(g, spell, KeywordKind::Storm) <= u32::MAX,
        effective_keywords(g, spell, KeywordKind::Casualty) <= u32::MAX,
        g.objects[spell].keywords@.len() <= u32::MAX,
    ensures
        ({
            let event = GameEvent::SpellCast { card_id, controller: caster, object_id: spell };
            let o = g.objects[spell];
            let triggers = cast_triggers(g, event);
            let storms = effective_keywords(g, spell, KeywordKind::Storm) as int;
            let cascades = o.keywords@.filter(|k: Keyword| k == Keyword::Cascade).len() as int;
            let casualties: int = if !o.has_additional_cost && additional_cost_paid(g, spell) {
                effective_keywords(g, spell, KeywordKind::Casualty) as int
            } else {
                0
            };
            &&& triggers.len() == storms + cascades + casualties
            &&& forall|k: int|
                0 <= k < storms ==> same_but_stamp(
                    #[trigger] triggers[k],
                    when_cast(
                        spell,
                        caster,
                        storm_ability(spell, caster, storm_copies(g)),
                        event,
                        "Storm",
                    ),
                )
            &&& forall|k: int|
                storms <= k < storms + cascades ==> same_but_stamp(
                    #[trigger] triggers[k],
                    when_cast(
                        spell,
                        o.controller,
                        bare_ability(Effect::Cascade, spell, o.controller),
                        event,
                        "Cascade",
                    ),
                )
            &&& forall|k: int|
                storms + cascades <= k < triggers.len() ==> same_but_stamp(
                    #[trigger] triggers[k],
                    when_cast(
                        spell,
                        o.controller,
                        casualty_ability(spell, o.controller),
                        event,
                        "Casualty",
                    ),
                )
            &&& !(other is SpellCast) ==> cast_triggers(g, other).len() == 0
        }),
{
    reveal(cast_triggers);
    let event = GameEvent::SpellCast { card_id, controller: caster, object_id: spell };
    let o = g.objects[spell];
    let triggers = cast_triggers(g, event);
    let test = |k: Keyword| k == Keyword::Cascade;
    lemma_count_cascade(o.keywords, test);
    o.keywords@.lemma_filter_len(test);
    let storms = storm_instances(g, spell) as nat;
    let cascades = cascade_instances(g, spell) as nat;
    let casualties = casualty_instances(g, spell) as nat;
    let first = g.timestamp_counter;
    let second = stamp_after(first, storms);
    let third = stamp_after(second, cascades);
    let storm = crate::triggers::rules::storm_trigger(g, spell, caster, event);
    let cascade = crate::triggers::rules::cascade_trigger(spell, o.controller, event);
    let casualty = crate::triggers::rules::casualty_trigger(spell, o.controller, event);
    lemma_stamped(storm, first, storms);
    lemma_stamped(cascade, second, cascades);
    lemma_stamped(casualty, third, casualties);
    let a = stamped_copies(storm, first, storms);
    let b = stamped_copies(cascade, second, cascades);
    let c = stamped_copies(casualty, third, casualties);
    assert(triggers == a + b + c);
    assert(storm == when_cast(
        spell,
        caster,
        storm_ability(spell, caster, storm_copies(g)),
        event,
        "Storm",
    ));
    assert(cascade == when_cast(
        spell,
        o.controller,
        bare_ability(Effect::Cascade, spell, o.controller),
        event,
        "Cascade",
    ));
    assert(casualty == when_cast(
        spell,
        o.controller,
        casualty_ability(spell, o.controller),
        event,
        "Casualty",
    ));
    assert forall|k: int| 0 <= k < storms implies #[trigger] triggers[k] == a[k] by {}
    assert forall|k: int| storms <= k < storms + cascades implies #[trigger] triggers[k] == b[k
        - storms] by {}
    assert forall|k: int| storms + cascades <= k < triggers.len() implies #[trigger] triggers[k]
        == c[k - storms - cascades] by {}
}

proof fn lemma_count_cascade(keywords: List<Keyword>, test: spec_fn(Keyword) -> bool)
    requires
        forall|k: Keyword| #[trigger] test(k) == (k == Keyword::Cascade),
    ensures
        count_kind(keywords, KeywordKind::Cascade) == keywords@.filter(test).len(),
    decreases keywords,
{
    reveal(Seq::filter);
    if keywords.node is Some {
        let rest = list_rest(keywords);
        lemma_count_cascade(rest, test);
        let items = keywords@;
        assert(items[0] == *keywords.node->0.item);
        assert(items =~= seq![items[0]] + rest@);
        Seq::filter_distributes_over_add(seq![items[0]], rest@, test);
        reveal_with_fuel(Seq::filter, 2);
        assert(seq![items[0]].drop_last() =~= Seq::<Keyword>::empty());
    }
}

/// Whether the additional cost of a spell was paid is noted on the first entry of the stack that
/// is the spell.
pub proof fn law_additional_cost(g: Game, spell: ObjectId, at: int)
    requires
        0 <= at <= g.stack.len(),
        forall|i: int| 0 <= i < at ==> (#[trigger] g.stack[i]).id != spell,
        at < g.stack.len() ==> g.stack[at].id == spell,
    ensures
        additional_cost_paid(g, spell) <==> (at < g.stack.len() && match g.stack[at].kind {
            StackEntryKind::Spell { ability, .. } => ability is Some
                && ability->0.context.additional_cost_paid,
            StackEntryKind::ActivatedAbility { ability, .. } =>
                ability.context.additional_cost_paid,
            StackEntryKind::TriggeredAbility { ability, .. } =>
                ability.context.additional_cost_paid,
            StackEntryKind::KeywordAction { .. } => false,
        }),
{
    lemma_stack_entry(g.stack, spell, 0, at);
}

proof fn lemma_stack_entry(stack: Seq<StackEntry>, id: ObjectId, from: nat, at: int)
    requires
        from <= at <= stack.len(),
        forall|i: int| from <= i < at ==> (#[trigger] stack[i]).id != id,
        at < stack.len() ==> stack[at].id == id,
    ensures
        stack_entry(stack, id, from) == (if at < stack.len() {
            Some(stack[at])
        } else {
            None
        }),
    decreases at - from,
{
    if from < at {
        lemma_stack_entry(stack, id, from + 1, at);
    }
}

/// A spell that no permanent and no emblem gives a keyword has as many of a kind as it has of its
/// own.
pub proof fn law_own_keywords(g: Game, spell: ObjectId, kind: KeywordKind)
    requires
        g.objects.contains_key(spell),
        forall|id: ObjectId, k: int|
            (g.battlefield.contains(id) || g.command_zone.contains(id)) && g.objects.contains_key(
                id,
            ) && 0 <= k < g.objects[id].static_definitions@.len() ==> !((
            #[trigger] g.objects[id].static_definitions@[k]).mode is CastWithKeyword),
    ensures
        effective_keywords(g, spell, kind) == g.objects[spell].keywords@.filter(
            |k: Keyword| k.kind_spec() == kind,
        ).len(),
{
    let test = |k: Keyword| k.kind_spec() == kind;
    lemma_count_kind(g.objects[spell].keywords, kind, test);
    assert forall|i: int| 0 <= i < g.battlefield.len() implies g.battlefield.contains(
        #[trigger] g.battlefield[i],
    ) by {}
    assert forall|i: int| 0 <= i < g.command_zone.len() implies g.command_zone.contains(
        #[trigger] g.command_zone[i],
    ) by {}
    lemma_no_grants(g, g.battlefield, spell, kind, g.battlefield.len());
    lemma_no_grants(g, g.command_zone, spell, kind, g.command_zone.len());
}

proof fn lemma_count_kind(
    keywords: List<Keyword>,
    kind: KeywordKind,
    test: spec_fn(Keyword) -> bool,
)
    requires
        forall|k: Keyword| #[trigger] test(k) == (k.kind_spec() == kind),
    ensures
        count_kind(keywords, kind) == keywords@.filter(test).len(),
    decreases keywords,
{
    reveal(Seq::filter);
    if keywords.node is Some {
        let rest = list_rest(keywords);
        lemma_count_kind(rest, kind, test);
        let items = keywords@;
        assert(items[0] == *keywords.node->0.item);
        assert(items =~= seq![items[0]] + rest@);
        Seq::filter_distributes_over_add(seq![items[0]], rest@, test);
        reveal_with_fuel(Seq::filter, 2);
        assert(seq![items[0]].drop_last() =~= Seq::<Keyword>::empty());
    }
}

proof fn lemma_no_grants(
    g: Game,
    ids: Seq<ObjectId>,
    spell: ObjectId,
    kind: KeywordKind,
    n: nat,
)
    requires
        n <= ids.len(),
        forall|i: int, k: int|
            0 <= i < ids.len() && g.objects.contains_key(ids[i]) && 0 <= k
                < g.objects[ids[i]].static_definitions@.len() ==> !((
            #[trigger] g.objects[ids[i]].static_definitions@[k]).mode is CastWithKeyword),
    ensures
        grants_by(g, ids, spell, kind, n) == 0,
    decreases n,
{
    if n > 0 {
        lemma_no_grants(g, ids, spell, kind, (n - 1) as nat);
        if g.objects.contains_key(ids[n - 1]) {
            let o = g.objects[ids[n - 1]];
            assert forall|k: int| 0 <= k < o.static_definitions@.len() implies !((
            #[trigger] o.static_definitions@[k]).mode is CastWithKeyword) by {
                assert(!(g.objects[ids[n - 1]].static_definitions@[k].mode is CastWithKeyword));
            }
            lemma_no_grants_of(g, o, o.static_definitions, spell, kind);
        }
    }
}

proof fn lemma_no_grants_of(
    g: Game,
    o: GameObject,
    defs: List<StaticDefinition>,
    spell: ObjectId,
    kind: KeywordKind,
)
    requires
        forall|k: int| 0 <= k < defs@.len() ==> !((#[trigger] defs@[k]).mode is CastWithKeyword),
    ensures
        grants_of(g, o, defs, spell, kind) == 0,
    decreases defs,
{
    if defs.node is Some {
        let rest = list_rest(defs);
        assert(defs@[0] == *defs.node->0.item);
        assert forall|k: int| 0 <= k < rest@.len() implies !((
        #[trigger] rest@[k]).mode is CastWithKeyword) by {
            assert(defs@[k + 1] == rest@[k]);
        }
        lemma_no_grants_of(g, o, rest, spell, kind);
    }
}

proof fn lemma_stamps(stamp: u64, n: nat)
    requires
        stamp + n <= u64::MAX,
    ensures
        stamp_after(stamp, n) == stamp + n,
    decreases n,
{
    if n > 0 {
        lemma_stamps(stamp, (n - 1) as nat);
    }
}

/// Each trigger of a spell takes a timestamp of its own, so that the next one is so much later;
/// nothing else changes, and no other event takes any.
pub proof fn law_stamps_taken(g: Game, event: GameEvent)
    ensures
        !(event is SpellCast) ==> after_cast_triggers(g, event) == g,
        event is SpellCast ==> {
            let spell = event->SpellCast_object_id;
            let taken = storm_instances(g, spell) + cascade_instances(g, spell)
                + casualty_instances(g, spell);
            let r = after_cast_triggers(g, event);
            &&& g.timestamp_counter + taken <= u64::MAX ==> r.timestamp_counter
                == g.timestamp_counter + taken
            &&& r == (Game { timestamp_counter: r.timestamp_counter, ..g })
        },
{
    reveal(after_cast_triggers);
    if let GameEvent::SpellCast { object_id, .. } = event {
        let storms = storm_instances(g, object_id) as nat;
        let cascades = cascade_instances(g, object_id) as nat;
        let casualties = casualty_instances(g, object_id) as nat;
        if g.timestamp_counter + storms + cascades + casualties <= u64::MAX {
            lemma_stamps(g.timestamp_counter, storms);
            lemma_stamps(stamp_after(g.timestamp_counter, storms), cascades);
            lemma_stamps(
                stamp_after(stamp_after(g.timestamp_counter, storms), cascades),
                casualties,
            );
        }
    }
}

/// Whether a static ability gives a spell a kind of keyword: it applies, it gives such a keyword
/// to spells, and, where it says to which, the spell is such a one.
pub open spec fn gives(
    g: Game,
    o: GameObject,
    def: StaticDefinition,
    spell: ObjectId,
    kind: KeywordKind,
) -> bool {
    &&& static_applies(g, o, def)
    &&& def.mode is CastWithKeyword
    &&& def.mode->CastWithKeyword_keyword.kind_spec() == kind
    &&& def.affected is Some ==> object_matches(
        g,
        spell,
        def.affected->0,
        FilterContext {
            source_id: o.id,
            controller: if g.objects.contains_key(o.id) {
                Some(g.objects[o.id].controller)
            } else {
                None
            },
            trigger_object: None,
        },
    )
}

/// The static abilities of an object give a spell one keyword for each of them that gives it one.
pub proof fn law_gives(
    g: Game,
    o: GameObject,
    defs: List<StaticDefinition>,
    spell: ObjectId,
    kind: KeywordKind,
)
    ensures
        grants_of(g, o, defs, spell, kind) == defs@.filter(
            |def: StaticDefinition| gives(g, o, def, spell, kind),
        ).len(),
    decreases defs,
{
    reveal(Seq::filter);
    let keep = |def: StaticDefinition| gives(g, o, def, spell, kind);
    let none = Seq::<StaticDefinition>::empty();
    assert(none.filter(keep) =~= none);
    if defs.node is Some {
        let rest = list_rest(defs);
        law_gives(g, o, rest, spell, kind);
        let first = *defs.node->0.item;
        assert(defs@ =~= seq![first] + rest@);
        assert(seq![first].drop_last() =~= none);
        Seq::filter_distributes_over_add(seq![first], rest@, keep);
        assert(static_grants(g, o, first, spell, kind) == gives(g, o, first, spell, kind));
    } else {
        assert(defs@ =~= none);
    }
}

proof fn lemma_own_count(keywords: List<Keyword>, kind: KeywordKind)
    ensures
        count_kind(keywords, kind) == keywords@.filter(
            |k: Keyword| k.kind_spec() == kind,
        ).len(),
    decreases keywords,
{
    reveal(Seq::filter);
    let keep = |k: Keyword| k.kind_spec() == kind;
    let none = Seq::<Keyword>::empty();
    assert(none.filter(keep) =~= none);
    if keywords.node is Some {
        let rest = list_rest(keywords);
        lemma_own_count(rest, kind);
        let first = *keywords.node->0.item;
        assert(keywords@ =~= seq![first] + rest@);
        assert(seq![first].drop_last() =~= none);
        Seq::filter_distributes_over_add(seq![first], rest@, keep);
    } else {
        assert(keywords@ =~= none);
    }
}

/// A spell has its own keywords of a kind, and one for each that a permanent or an object in the
/// command zone gives it; each such object counts with all that it gives (CR 702.85c).
pub proof fn law_keywords_of_spell(g: Game, spell: ObjectId, kind: KeywordKind, n: nat)
    ensures
        g.objects.contains_key(spell) ==> effective_keywords(g, spell, kind)
            == g.objects[spell].keywords@.filter(|k: Keyword| k.kind_spec() == kind).len()
            + grants_by(g, g.battlefield, spell, kind, g.battlefield.len()) + grants_by(
            g,
            g.command_zone,
            spell,
            kind,
            g.command_zone.len(),
        ),
        !g.objects.contains_key(spell) ==> effective_keywords(g, spell, kind) == 0,
        n < g.battlefield.len() ==> grants_by(g, g.battlefield, spell, kind, n + 1) == grants_by(
            g,
            g.battlefield,
            spell,
            kind,
            n,
        ) + (if g.objects.contains_key(g.battlefield[n as int]) {
            let o = g.objects[g.battlefield[n as int]];
            o.static_definitions@.filter(
                |def: StaticDefinition| gives(g, o, def, spell, kind),
            ).len()
        } else {
            0
        }),
        grants_by(g, g.battlefield, spell, kind, 0) == 0,
{
    if g.objects.contains_key(spell) {
        lemma_own_count(g.objects[spell].keywords, kind);
    }
    if n < g.battlefield.len() && g.objects.contains_key(g.battlefield[n as int]) {
        let o = g.objects[g.battlefield[n as int]];
        law_gives(g, o, o.static_definitions, spell, kind);
    }
}

/// A player's speed is what the seat says, none is nothing; and the trigger that raises it is
/// spent for the turn once it has fired, for that player alone (CR 702.179).
pub proof fn law_speed(g: Game, seat: int, i: int)
    requires
        0 <= seat < g.players.len(),
        forall|k: int| 0 <= k < seat ==> (#[trigger] g.players[k]).id != g.players[seat].id,
    ensures
        ({
            let p = g.players[seat];
            let r = speed_trigger_spent(g, p.id);
            &&& p.speed is Some ==> speed_of(g, p.id) == p.speed->0
            &&& p.speed is None ==> speed_of(g, p.id) == 0
            &&& speed_trigger_free(g, p.id) <==> !p.speed_trigger_used
            &&& r.players[seat].speed_trigger_used
            &&& r.players[seat].speed == p.speed && r.players[seat].life == p.life
            &&& 0 <= i < g.players.len() && i != seat ==> r.players[i] == g.players[i]
            &&& !speed_trigger_free(r, p.id)
        }),
{
    let p = g.players[seat];
    lemma_first_seat(g.players, p.id, 0);
    let r = speed_trigger_spent(g, p.id);
    lemma_first_seat(r.players, p.id, 0);
    assert(r.players[seat].id == p.id);
}

} // verus!
