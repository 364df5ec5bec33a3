//! Triggered abilities: from events to the stack (CR 603).

use crate::ability::{
    AbilityDefinition, DistributionUnit, MayTriggerOrigin, ModalChoice, ResolvedAbility,
    TargetSelectionConstraint, TriggerCondition,
};
use crate::events::{copy_event, GameEvent};
use crate::id_map::IdMap;
use crate::ids::{ObjectId, PlayerId};
use crate::layers::{evaluate_layers, law_layers_keep_table, layered};
use crate::list::{copy_rc, List};
use crate::object::{ColoredManaCount, GameObject};
use crate::state::{same_table, Game, GameState};
use crate::text::{copy_text, Text};
use crate::triggers::collect::PendingTriggerContext;
use crate::triggers::order::{law_stack_order, order_for_stack, stack_order, Timed};
use crate::triggers::placing::{
    apply_trigger_doubling, law_placing_keeps_table, place_triggers, placed, with_doubles,
};
use crate::triggers::scan::{law_scan_keeps_table, scan_events, scanned};
use std::rc::Rc;
use vstd::prelude::*;

pub mod cast_laws;
pub mod collect;
pub mod condition_laws;
pub mod conditions;
pub mod delayed;
pub mod delayed_laws;
pub mod found_laws;
pub mod keyword_laws;
pub mod keywords;
pub mod laws;
pub mod order;
pub mod placing;
pub mod placing_laws;
pub mod printed_laws;
pub mod rule_laws;
pub mod rules;
pub mod scan;
pub mod scan_laws;
pub mod state_laws;
pub mod target_laws;
pub mod watch_laws;

verus! {

/// A trigger that matched an event and is waiting to be placed on the stack.
#[derive(Debug, PartialEq, Eq)]
pub struct PendingTrigger {
    pub source_id: ObjectId,
    pub controller: PlayerId,
    pub condition: Option<Rc<TriggerCondition>>,
    pub ability: ResolvedAbility,
    pub timestamp: u32,
    pub target_constraints: List<TargetSelectionConstraint>,
    /// CR 601.2d + CR 603.3d: Trigger controllers divide distributed effects
    /// while putting the triggered ability on the stack, after targets are known.
    pub distribute: Option<DistributionUnit>,
    /// CR 603.7c: The event that caused this trigger to fire, for event-context resolution.
    pub trigger_event: Option<GameEvent>,
    /// CR 700.2b: Modal trigger data for deferred mode selection.
    pub modal: Option<ModalChoice>,
    pub mode_abilities: Option<List<AbilityDefinition>>,
    /// Human-readable trigger description from the Oracle text.
    pub description: Option<Text>,
    pub may_trigger_origin: Option<MayTriggerOrigin>,
}

impl Clone for PendingTrigger {
    fn clone(&self) -> (r: Self)
        ensures
            r == *self,
    {
        PendingTrigger {
            source_id: self.source_id,
            controller: self.controller,
            condition: copy_rc(&self.condition),
            ability: self.ability.clone(),
            timestamp: self.timestamp,
            target_constraints: self.target_constraints.clone(),
            distribute: self.distribute,
            trigger_event: copy_event(&self.trigger_event),
            modal: self.modal,
            mode_abilities: match &self.mode_abilities {
                None => None,
                Some(m) => Some(m.clone()),
            },
            description: copy_text(&self.description),
            may_trigger_origin: self.may_trigger_origin,
        }
    }
}

impl Timed for PendingTrigger {
    open spec fn owner(&self) -> PlayerId {
        self.controller
    }

    open spec fn stamp(&self) -> u32 {
        self.timestamp
    }

    fn waiting_for(&self) -> (r: PlayerId) {
        self.controller
    }

    fn waiting_since(&self) -> (r: u32) {
        self.timestamp
    }
}

impl Timed for PendingTriggerContext {
    open spec fn owner(&self) -> PlayerId {
        self.pending.controller
    }

    open spec fn stamp(&self) -> u32 {
        self.pending.timestamp
    }

    fn waiting_for(&self) -> (r: PlayerId) {
        self.pending.controller
    }

    fn waiting_since(&self) -> (r: u32) {
        self.pending.timestamp
    }
}

/// An object without the facts about how it was cast that only its arrival may ask for.
pub open spec fn cast_facts_dropped(o: GameObject) -> GameObject {
    GameObject {
        cast_from_zone: None,
        mana_spent_to_cast: false,
        colors_spent_to_cast: ColoredManaCount::none(),
        ..o
    }
}

/// The game without those facts.
pub open spec fn cast_facts_cleared(g: Game) -> Game {
    Game {
        objects: Map::new(
            |id: ObjectId| g.objects.contains_key(id),
            |id: ObjectId| cast_facts_dropped(g.objects[id]),
        ),
        ..g
    }
}

fn drop_cast_facts(o: &mut GameObject)
    ensures
        *final(o) == cast_facts_dropped(*old(o)),
{
    o.cast_from_zone = None;
    o.mana_spent_to_cast = false;
    o.colors_spent_to_cast = ColoredManaCount::zero();
}

fn drop_all_cast_facts(objects: &mut IdMap<ObjectId, GameObject>)
    ensures
        final(objects)@ == Map::new(
            |id: ObjectId| old(objects)@.contains_key(id),
            |id: ObjectId| cast_facts_dropped(old(objects)@[id]),
        ),
{
    let ghost before = objects@;
    let ids = objects.keys();
    let mut i: usize = 0;
    while i < ids.len()
        invariant
            i <= ids@.len(),
            before == old(objects)@,
            forall|id: ObjectId| #[trigger] ids@.contains(id) <==> before.contains_key(id),
            forall|id: ObjectId| #[trigger] objects@.contains_key(id) <==> before.contains_key(id),
            forall|id: ObjectId|
                ids@.take(i as int).contains(id) ==> #[trigger] objects@[id] == cast_facts_dropped(
                    before[id],
                ),
            forall|id: ObjectId|
                before.contains_key(id) && !ids@.take(i as int).contains(id)
                    ==> #[trigger] objects@[id] == before[id],
        decreases ids@.len() - i,
    {
        let id = ids[i];
        let ghost prior = objects@;
        let ghost done = ids@.take(i as int);
        assert(ids@.contains(id));
        assert(prior.contains_key(id));
        // An identifier that occurs twice has its facts dropped twice, which changes nothing.
        assert(cast_facts_dropped(prior[id]) == cast_facts_dropped(before[id]));
        if let Some(o) = objects.get_mut(&id) {
            drop_cast_facts(o);
        }
        assert(objects@ == prior.insert(id, cast_facts_dropped(prior[id])));
        i = i + 1;
        proof {
            let next = ids@.take(i as int);
            assert(next =~= done.push(id));
            assert forall|other: ObjectId| next.contains(other) <==> done.contains(other) || other
                == id by {
                if done.contains(other) {
                    let k = choose|k: int| 0 <= k < done.len() && done[k] == other;
                    assert(next[k] == other);
                }
                if other == id {
                    assert(next[i - 1] == other);
                }
            }
        }
    }
    proof {
        assert(ids@.take(i as int) =~= ids@);
        assert(objects@ =~= Map::new(
            |id: ObjectId| before.contains_key(id),
            |id: ObjectId| cast_facts_dropped(before[id]),
        ));
    }
}

fn clear_cast_facts(state: &mut GameState)
    ensures
        final(state)@ == cast_facts_cleared(old(state)@),
{
    drop_all_cast_facts(&mut state.objects);
}

/// The game with its continuous effects up to date.
pub open spec fn up_to_date(g: Game) -> Game {
    if g.layers_dirty {
        layered(g)
    } else {
        g
    }
}

/// The triggers that a batch of events sets off, doubled where something doubles them, in the
/// order in which they go on the stack.
pub open spec fn triggers_set_off(g: Game, events: Seq<GameEvent>) -> Seq<PendingTriggerContext> {
    let pass = scanned(g, events, events.len());
    stack_order(pass.game.active_player, with_doubles(pass.game, pass.pending))
}

/// The game after the triggers of a batch of events have been processed.
pub open spec fn triggers_processed(g: Game, events: Seq<GameEvent>) -> Game {
    let current = up_to_date(g);
    let order = triggers_set_off(current, events);
    let found = scanned(current, events, events.len()).game;
    let end = placed(found, order, order.len());
    if order.len() == 0 || end.stopped {
        end.game
    } else {
        cast_facts_cleared(end.game)
    }
}

/// Processing triggers moves no permanent and removes no player: it is the abilities, once they
/// resolve, that do.
pub proof fn law_triggers_keep_table(g: Game, events: Seq<GameEvent>)
    ensures
        same_table(g, triggers_processed(g, events)),
{
    let current = up_to_date(g);
    law_layers_keep_table(g);
    law_scan_keeps_table(current, events, events.len());
    let order = triggers_set_off(current, events);
    law_placing_keeps_table(scanned(current, events, events.len()).game, order, order.len());
}

/// Process events and place triggered abilities on the stack in APNAP order.
/// CR 603.3b: Process triggered abilities waiting to be put on the stack.
///
/// CR 603.6a + CR 611.2e: pending continuous effects are brought up to date first, so that what
/// they grant to a newcomer is seen.
///
/// The facts about how objects were cast only need to survive long enough for the triggers on
/// their arrival (CR 603.4); they are dropped once all triggers have been placed. How much mana
/// was spent stays.
pub fn process_triggers(state: &mut GameState, events: &[GameEvent])
    ensures
        final(state)@ == triggers_processed(old(state)@, events@),
{
    if state.layers_dirty {
        evaluate_layers(state);
    }
    let mut pending = scan_events(state, events);
    // CR 603.2d: Trigger doubling.
    apply_trigger_doubling(state, &mut pending);
    proof {
        law_stack_order(state@.active_player, pending@);
    }
    if pending.len() == 0 {
        return ;
    }
    // CR 603.3b: Active player's triggers are ordered before non-active player's triggers.
    // Within same controller, order by timestamp. Reversed so that what is placed last
    // resolves first.
    let order = order_for_stack(state.active_player, pending);
    let mut events_out: Vec<GameEvent> = Vec::new();
    let stopped: bool = place_triggers(state, &order, &mut events_out);
    if !stopped {
        clear_cast_facts(state);
    }
}

} // verus!
