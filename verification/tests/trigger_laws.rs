//! What holds of triggers as a whole, on given games.

use engine::ability::{
    AbilityDefinition, AbilityKind, DelayedTriggerCondition, Effect, PlayerFilter, QuantityExpr,
    ResolvedAbility, SolveCondition, StaticDefinition, StaticMode, TargetFilter, TriggerCause,
    TriggerCondition, TriggerConstraint, TriggerDefinition, TriggerMode, TypeFilter, TypedFilter,
    WardCost,
};
use engine::ability::{AbilityCost, ManaCost};
use engine::events::{GameEvent, ZoneChangeRecord};
use engine::ids::{
    CardId, Comparator, ControllerRef, CoreType, CounterType, ObjectId, Phase, PlayerId,
    TrackedSetId, Zone,
};
use engine::list::List;
use engine::object::CaseState;
use engine::state::{DelayedTrigger, GameState};
use engine::text::Text;
use engine::triggers::collect::PendingTriggerContext;
use engine::triggers::conditions::{
    check_trigger_condition, check_trigger_constraint, evaluate_solve_condition,
    record_trigger_fired,
};
use engine::triggers::delayed::{check_delayed_triggers, check_state_triggers};
use engine::triggers::keywords::ward_cost_to_ability_cost;
use engine::triggers::order::order_for_stack;
use engine::triggers::placing::{
    apply_trigger_doubling, push_pending_trigger_to_stack,
    push_pending_trigger_to_stack_with_event_batch,
};
use engine::triggers::rules::storm_copy_count_before_cast;
use engine::triggers::{process_triggers, PendingTrigger};
use engine::zones::create_object;
use std::rc::Rc;

fn text(words: &str) -> Text {
    Text::new(words.to_string())
}

fn creature(state: &mut GameState, owner: PlayerId) -> ObjectId {
    let card = CardId(state.next_object_id);
    let id = create_object(state, card, owner, text("Creature"), Zone::Battlefield);
    let obj = state.objects.get_mut(&id).unwrap();
    obj.card_types.core_types.push(CoreType::Creature);
    id
}

fn draw_one() -> Effect {
    Effect::Draw { count: QuantityExpr::Fixed { value: 1 }, target: TargetFilter::Controller }
}

fn draws(mode: TriggerMode) -> TriggerDefinition {
    TriggerDefinition {
        execute: Some(Rc::new(AbilityDefinition::new(AbilityKind::Spell, draw_one()))),
        ..TriggerDefinition::new(mode)
    }
}

fn waiting(source: u64, controller: u8, timestamp: u32) -> PendingTrigger {
    PendingTrigger {
        source_id: ObjectId(source),
        controller: PlayerId(controller),
        condition: None,
        ability: ResolvedAbility::new(
            draw_one(),
            Vec::new(),
            ObjectId(source),
            PlayerId(controller),
        ),
        timestamp,
        target_constraints: List::new(),
        distribute: None,
        trigger_event: None,
        modal: None,
        mode_abilities: None,
        description: None,
        may_trigger_origin: None,
    }
}

fn enters(id: ObjectId) -> GameEvent {
    GameEvent::ZoneChanged {
        object_id: id,
        from: Some(Zone::Hand),
        to: Zone::Battlefield,
        record: Rc::new(ZoneChangeRecord {
            core_types: List::one(CoreType::Creature),
            ..ZoneChangeRecord::minimal(id, Some(Zone::Hand), Zone::Battlefield)
        }),
    }
}

fn holds(state: &GameState, condition: &TriggerCondition) -> bool {
    check_trigger_condition(state, condition, PlayerId(0), None, None)
}

#[test]
fn triggers_go_on_the_stack_with_the_active_player_on_top() {
    let order = order_for_stack(
        PlayerId(0),
        vec![waiting(1, 1, 5), waiting(2, 0, 9), waiting(3, 1, 2), waiting(4, 0, 1)],
    );
    let sources: Vec<u64> = order.iter().map(|t| t.source_id.0).collect();
    // Placed first to last: the other player's, latest first, then the active player's.
    assert_eq!(sources, vec![1, 3, 2, 4]);
}

#[test]
fn triggers_of_one_moment_resolve_in_the_order_in_which_they_came() {
    let order = order_for_stack(PlayerId(0), vec![waiting(1, 0, 3), waiting(2, 0, 3)]);
    let sources: Vec<u64> = order.iter().map(|t| t.source_id.0).collect();
    assert_eq!(sources, vec![2, 1]);
}

#[test]
fn each_doubler_adds_one_more_instance() {
    let mut state = GameState::new_two_player(1);
    for _ in 0..2 {
        let id = creature(&mut state, PlayerId(0));
        state.objects.get_mut(&id).unwrap().static_definitions = List::one(StaticDefinition {
            mode: StaticMode::DoubleTriggers { cause: TriggerCause::Any },
            affected: None,
            condition: None,
            modifications: List::new(),
        });
    }
    let mut pending = vec![
        PendingTriggerContext::single(waiting(50, 0, 0)),
        PendingTriggerContext::single(waiting(60, 1, 0)),
    ];
    apply_trigger_doubling(&state, &mut pending);
    let of = |source: u64| {
        pending.iter().filter(|c| c.pending.source_id == ObjectId(source)).count()
    };
    assert_eq!(of(50), 3);
    // The other player's trigger is nobody's to double.
    assert_eq!(of(60), 1);
}

#[test]
fn a_doubler_does_not_double_its_own_trigger() {
    let mut state = GameState::new_two_player(1);
    let id = creature(&mut state, PlayerId(0));
    state.objects.get_mut(&id).unwrap().static_definitions = List::one(StaticDefinition {
        mode: StaticMode::DoubleTriggers { cause: TriggerCause::Any },
        affected: None,
        condition: None,
        modifications: List::new(),
    });
    let mut pending = vec![PendingTriggerContext::single(waiting(id.0, 0, 0))];
    apply_trigger_doubling(&state, &mut pending);
    assert_eq!(pending.len(), 1);
}

#[test]
fn pushed_triggers_lie_on_top_in_order() {
    let mut state = GameState::new_two_player(1);
    let mut events = Vec::new();
    for source in [7, 8] {
        push_pending_trigger_to_stack(&mut state, waiting(source, 0, 0), &mut events);
    }
    let sources: Vec<u64> = state.stack.iter().map(|e| e.source_id.0).collect();
    assert_eq!(sources, vec![7, 8]);
    assert_eq!(
        events,
        vec![
            GameEvent::StackPushed { object_id: state.stack[0].id },
            GameEvent::StackPushed { object_id: state.stack[1].id },
        ]
    );
}

#[test]
fn a_state_trigger_waits_until_its_ability_has_left_the_stack() {
    let mut state = GameState::new_two_player(1);
    let id = creature(&mut state, PlayerId(0));
    state.objects.get_mut(&id).unwrap().trigger_definitions = List::one(TriggerDefinition {
        condition: Some(Rc::new(TriggerCondition::NoSpellsCastLastTurn)),
        ..draws(TriggerMode::StateCondition)
    });
    check_state_triggers(&mut state);
    assert_eq!(state.stack.len(), 1);
    check_state_triggers(&mut state);
    assert_eq!(state.stack.len(), 1);
    state.stack.pop();
    check_state_triggers(&mut state);
    assert_eq!(state.stack.len(), 1);
}

#[test]
fn a_one_shot_delayed_trigger_is_spent_and_a_lasting_one_stays() {
    let mut state = GameState::new_two_player(1);
    for one_shot in [true, false] {
        state.delayed_triggers.push(DelayedTrigger {
            condition: DelayedTriggerCondition::AtNextPhase { phase: Phase::End },
            ability: ResolvedAbility::new(draw_one(), Vec::new(), ObjectId(5), PlayerId(0)),
            controller: PlayerId(0),
            source_id: ObjectId(5),
            one_shot,
        });
    }
    let upkeep = [GameEvent::PhaseChanged { phase: Phase::Upkeep }];
    assert_eq!(check_delayed_triggers(&mut state, &upkeep), vec![]);
    assert_eq!(state.delayed_triggers.len(), 2);

    let end = [GameEvent::PhaseChanged { phase: Phase::End }];
    assert_eq!(check_delayed_triggers(&mut state, &end).len(), 2);
    assert_eq!(state.stack.len(), 2);
    assert_eq!(state.delayed_triggers.len(), 1);
    assert!(!state.delayed_triggers[0].one_shot);

    assert_eq!(check_delayed_triggers(&mut state, &end).len(), 1);
    assert_eq!(state.stack.len(), 3);
}

#[test]
fn a_delayed_trigger_on_a_tracked_set_fires_for_its_objects_alone() {
    let mut state = GameState::new_two_player(1);
    let source = creature(&mut state, PlayerId(0));
    let listed = creature(&mut state, PlayerId(1));
    let other = creature(&mut state, PlayerId(1));
    state.tracked_object_sets.insert(TrackedSetId(1), List::one(listed));
    state.delayed_triggers.push(DelayedTrigger {
        condition: DelayedTriggerCondition::WhenEntersBattlefield {
            filter: TargetFilter::TrackedSet { id: TrackedSetId(1) },
        },
        ability: ResolvedAbility::new(
            Effect::PutCounter {
                counter_type: CounterType::Plus1Plus1,
                count: QuantityExpr::Fixed { value: 2 },
                target: TargetFilter::TriggeringSource,
            },
            Vec::new(),
            source,
            PlayerId(0),
        ),
        controller: PlayerId(0),
        source_id: source,
        one_shot: true,
    });
    assert_eq!(check_delayed_triggers(&mut state, &[enters(other)]), vec![]);
    assert_eq!(state.stack.len(), 0);
    assert_eq!(check_delayed_triggers(&mut state, &[enters(listed)]).len(), 1);
    assert_eq!(state.stack.len(), 1);
    assert_eq!(state.delayed_triggers.len(), 0);
}

#[test]
fn combinators_mean_all_one_and_none() {
    let state = GameState::new_two_player(1);
    let yes = || TriggerCondition::NoSpellsCastLastTurn;
    let no = || TriggerCondition::IsMonarch;
    assert!(holds(&state, &yes()));
    assert!(!holds(&state, &no()));
    let both = List::from_vec(vec![yes(), no()]);
    assert!(!holds(&state, &TriggerCondition::And { conditions: both }));
    let either = List::from_vec(vec![no(), yes()]);
    assert!(holds(&state, &TriggerCondition::Or { conditions: either }));
    assert!(holds(&state, &TriggerCondition::And { conditions: List::new() }));
    assert!(!holds(&state, &TriggerCondition::Or { conditions: List::new() }));
    assert!(holds(&state, &TriggerCondition::Not { condition: Rc::new(no()) }));
    assert!(!holds(&state, &TriggerCondition::Not { condition: Rc::new(yes()) }));
}

#[test]
fn limits_count_what_has_fired() {
    let mut state = GameState::new_two_player(1);
    let event = GameEvent::PhaseChanged { phase: Phase::End };
    let limited = |constraint: TriggerConstraint| TriggerDefinition {
        constraint: Some(Rc::new(constraint)),
        ..draws(TriggerMode::Phase)
    };
    let allowed = |state: &GameState, def: &TriggerDefinition, index: usize| {
        check_trigger_constraint(state, def, ObjectId(3), index, PlayerId(0), &event)
    };
    let per_turn = limited(TriggerConstraint::OncePerTurn);
    let per_game = limited(TriggerConstraint::OncePerGame);
    let twice = limited(TriggerConstraint::MaxTimesPerTurn { max: 2 });
    for def in [&per_turn, &per_game, &twice] {
        assert!(allowed(&state, def, 0));
        record_trigger_fired(&mut state, &def.constraint, ObjectId(3), 0);
    }
    assert!(!allowed(&state, &per_turn, 0));
    assert!(!allowed(&state, &per_game, 0));
    assert!(allowed(&state, &twice, 0));
    record_trigger_fired(&mut state, &twice.constraint, ObjectId(3), 0);
    assert!(!allowed(&state, &twice, 0));
    // Another trigger of the same object has its own count.
    assert!(allowed(&state, &per_turn, 1));
    assert!(allowed(&state, &twice, 1));
}

#[test]
fn turn_and_phase_limits_follow_the_game() {
    let mut state = GameState::new_two_player(1);
    state.active_player = PlayerId(0);
    state.phase = Phase::PreCombatMain;
    let event = GameEvent::CardDrawn {
        player_id: PlayerId(0),
        object_id: ObjectId(1),
        nth_in_turn: 2,
        nth_in_step: 1,
    };
    let allowed = |state: &GameState, constraint: TriggerConstraint, controller: u8| {
        let def = TriggerDefinition {
            constraint: Some(Rc::new(constraint)),
            ..draws(TriggerMode::Phase)
        };
        check_trigger_constraint(state, &def, ObjectId(3), 0, PlayerId(controller), &event)
    };
    assert!(allowed(&state, TriggerConstraint::OnlyDuringYourTurn, 0));
    assert!(!allowed(&state, TriggerConstraint::OnlyDuringYourTurn, 1));
    assert!(allowed(&state, TriggerConstraint::OnlyDuringOpponentsTurn, 1));
    assert!(allowed(&state, TriggerConstraint::OnlyDuringYourMainPhase, 0));
    assert!(!allowed(&state, TriggerConstraint::OnlyDuringYourMainPhase, 1));
    assert!(allowed(&state, TriggerConstraint::NthDrawThisTurn { n: 2 }, 0));
    assert!(!allowed(&state, TriggerConstraint::NthDrawThisTurn { n: 3 }, 0));
    assert!(!allowed(&state, TriggerConstraint::NthSpellThisTurn { n: 1, filter: None }, 0));
    state.phase = Phase::End;
    assert!(!allowed(&state, TriggerConstraint::OnlyDuringYourMainPhase, 0));
}

#[test]
fn a_solved_case_is_not_solved_again() {
    let mut state = GameState::new_two_player(1);
    creature(&mut state, PlayerId(0));
    let case = |is_solved: bool| CaseState {
        is_solved,
        solve_condition: SolveCondition::ObjectCount {
            filter: TargetFilter::Typed(TypedFilter {
                type_filters: List::one(TypeFilter::Creature),
                controller: Some(ControllerRef::You),
                properties: List::new(),
            }),
            comparator: Comparator::GE,
            threshold: 1,
        },
    };
    assert!(evaluate_solve_condition(&state, &case(false), PlayerId(0)));
    assert!(!evaluate_solve_condition(&state, &case(true), PlayerId(0)));
    assert!(!evaluate_solve_condition(&state, &case(false), PlayerId(1)));
}

#[test]
fn whose_turn_it_is_decides_only_for_single_players() {
    let mut state = GameState::new_two_player(1);
    state.active_player = PlayerId(1);
    let during = |player: PlayerFilter| TriggerCondition::DuringPlayersTurn { player };
    assert!(!holds(&state, &during(PlayerFilter::Controller)));
    assert!(holds(&state, &during(PlayerFilter::Opponent)));
    assert!(!holds(&state, &during(PlayerFilter::All)));
    assert!(!holds(&state, &during(PlayerFilter::TriggeringPlayer)));
}

#[test]
fn processing_triggers_moves_nothing() {
    let mut state = GameState::new_two_player(1);
    let watcher = creature(&mut state, PlayerId(0));
    state.objects.get_mut(&watcher).unwrap().trigger_definitions = List::one(TriggerDefinition {
        destination: Some(Zone::Battlefield),
        ..draws(TriggerMode::ChangesZone)
    });
    let newcomer = creature(&mut state, PlayerId(1));
    let before = state.battlefield.clone();
    process_triggers(&mut state, &[enters(newcomer)]);
    assert_eq!(state.stack.len(), 1);
    assert_eq!(state.battlefield, before);
    assert!(state.players.iter().all(|p| !p.is_eliminated));
}

#[test]
fn compound_ward_costs_what_its_first_part_costs() {
    assert_eq!(
        ward_cost_to_ability_cost(&WardCost::Compound(List::from_vec(vec![
            WardCost::PayLife(3),
            WardCost::DiscardCard,
        ]))),
        AbilityCost::PayLife { amount: QuantityExpr::Fixed { value: 3 } }
    );
    assert_eq!(
        ward_cost_to_ability_cost(&WardCost::Compound(List::new())),
        AbilityCost::Mana { cost: ManaCost::zero() }
    );
}

#[test]
fn no_spell_before_the_first_is_copied() {
    let state = GameState::new_two_player(1);
    assert_eq!(storm_copy_count_before_cast(&state), 0);
}

#[test]
fn another_ability_on_the_stack_does_not_hold_a_state_trigger_back() {
    let mut state = GameState::new_two_player(1);
    let id = creature(&mut state, PlayerId(0));
    state.objects.get_mut(&id).unwrap().trigger_definitions = List::from_vec(vec![
        TriggerDefinition {
            destination: Some(Zone::Battlefield),
            valid_card: Some(TargetFilter::SelfRef),
            ..draws(TriggerMode::ChangesZone)
        },
        TriggerDefinition {
            condition: Some(Rc::new(TriggerCondition::NoSpellsCastLastTurn)),
            ..draws(TriggerMode::StateCondition)
        },
    ]);
    process_triggers(&mut state, &[enters(id)]);
    assert_eq!(state.stack.len(), 1);
    check_state_triggers(&mut state);
    assert_eq!(state.stack.len(), 2);
    assert_eq!(state.stack[1].source_id, id);
    assert_eq!(state.stack[1].ability().unwrap().ability_index, Some(1));
    check_state_triggers(&mut state);
    assert_eq!(state.stack.len(), 2);
}

#[test]
fn two_state_triggers_of_one_permanent_wait_each_for_its_own_ability() {
    let mut state = GameState::new_two_player(1);
    let id = creature(&mut state, PlayerId(0));
    let when_quiet = || TriggerDefinition {
        condition: Some(Rc::new(TriggerCondition::NoSpellsCastLastTurn)),
        ..draws(TriggerMode::StateCondition)
    };
    state.objects.get_mut(&id).unwrap().trigger_definitions =
        List::from_vec(vec![when_quiet(), when_quiet()]);
    check_state_triggers(&mut state);
    assert_eq!(state.stack.len(), 2);
    let gone = state.stack.pop().unwrap();
    check_state_triggers(&mut state);
    assert_eq!(state.stack.len(), 2);
    assert_eq!(
        state.stack[1].ability().unwrap().ability_index,
        gone.ability().unwrap().ability_index
    );
}

#[test]
fn a_state_trigger_whose_condition_fails_stays_off_the_stack() {
    let mut state = GameState::new_two_player(1);
    let id = creature(&mut state, PlayerId(0));
    state.objects.get_mut(&id).unwrap().trigger_definitions = List::one(TriggerDefinition {
        condition: Some(Rc::new(TriggerCondition::IsMonarch)),
        ..draws(TriggerMode::StateCondition)
    });
    check_state_triggers(&mut state);
    assert_eq!(state.stack.len(), 0);
    state.monarch = Some(PlayerId(0));
    state.objects.get_mut(&id).unwrap().phased_out = true;
    check_state_triggers(&mut state);
    assert_eq!(state.stack.len(), 0);
    state.objects.get_mut(&id).unwrap().phased_out = false;
    check_state_triggers(&mut state);
    assert_eq!(state.stack.len(), 1);
}

#[test]
fn what_an_event_triggers_lies_on_the_stack_in_stack_order() {
    let mut state = GameState::new_two_player(1);
    state.active_player = PlayerId(0);
    let watch = || TriggerDefinition {
        destination: Some(Zone::Battlefield),
        ..draws(TriggerMode::ChangesZone)
    };
    let mut watchers = Vec::new();
    for (owner, turn) in [(0, 5), (1, 1), (0, 2), (1, 4)] {
        let id = creature(&mut state, PlayerId(owner));
        let obj = state.objects.get_mut(&id).unwrap();
        obj.trigger_definitions = List::one(watch());
        obj.entered_battlefield_turn = Some(turn);
        watchers.push(id);
    }
    let newcomer = creature(&mut state, PlayerId(1));
    process_triggers(&mut state, &[enters(newcomer)]);
    let sources: Vec<ObjectId> = state.stack.iter().map(|e| e.source_id).collect();
    // The active player's lie on top, the oldest uppermost.
    assert_eq!(sources, vec![watchers[3], watchers[1], watchers[0], watchers[2]]);
}

#[test]
fn a_batch_of_events_is_kept_under_the_identifier_of_its_ability() {
    let mut state = GameState::new_two_player(1);
    let mut events = Vec::new();
    let batch = List::from_vec(vec![
        GameEvent::PhaseChanged { phase: Phase::Upkeep },
        GameEvent::PhaseChanged { phase: Phase::End },
    ]);
    push_pending_trigger_to_stack_with_event_batch(
        &mut state,
        waiting(7, 0, 1),
        batch.clone(),
        &mut events,
    );
    push_pending_trigger_to_stack_with_event_batch(
        &mut state,
        waiting(8, 0, 1),
        List::one(GameEvent::PhaseChanged { phase: Phase::Draw }),
        &mut events,
    );
    let (first, second) = (state.stack[0].id, state.stack[1].id);
    assert_eq!(state.stack_trigger_event_batches.get(&first), Some(&batch));
    assert_eq!(state.stack_trigger_event_batches.get(&second), None);
}

#[test]
fn a_commander_counts_only_for_the_player_who_owns_and_controls_it() {
    let mut state = GameState::new_two_player(1);
    let id = creature(&mut state, PlayerId(0));
    state.objects.get_mut(&id).unwrap().is_commander = true;
    assert!(holds(&state, &TriggerCondition::ControlsCommander));
    state.objects.get_mut(&id).unwrap().controller = PlayerId(1);
    assert!(!holds(&state, &TriggerCondition::ControlsCommander));
    let borrowed = creature(&mut state, PlayerId(1));
    let obj = state.objects.get_mut(&borrowed).unwrap();
    obj.is_commander = true;
    obj.controller = PlayerId(0);
    assert!(!holds(&state, &TriggerCondition::ControlsCommander));
}
