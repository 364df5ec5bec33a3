//! The combat damage step.

use engine::ability::{
    AbilityDefinition, AbilityKind, ContinuousModification, DamageTargetFilter,
    DamageTargetPlayerScope, Effect, Keyword, PtValue, QuantityExpr, QuantityRef,
    ReplacementDefinition, StaticDefinition, StaticMode, TargetFilter, TokenRider, TokenSpec,
    TriggerCondition, TriggerDefinition, TriggerMode, TypeFilter, TypedFilter,
};
use engine::combat::{AttackerInfo, CombatState, DamageAssignment, DamageTarget};
use engine::combat_damage::resolve_combat_damage;
use engine::events::GameEvent;
use engine::ids::{
    AttackTarget, CardId, Comparator, ControllerRef, CoreType, CounterType, ManaColor, ObjectId,
    PlayerId, TrackedSetId, Zone,
};
use engine::layers::evaluate_layers;
use engine::list::List;
use engine::object::GameObject;
use engine::sba::check_state_based_actions;
use engine::state::{
    CombatDamageAssignmentMode, GameState, TransientContinuousEffect, WaitingFor,
};
use engine::text::Text;
use engine::zones::create_object;
use std::rc::Rc;

fn setup() -> GameState {
    let mut state = GameState::new_two_player(42);
    state.turn_number = 2;
    state.active_player = PlayerId(0);
    state
}

fn create_creature(
    state: &mut GameState,
    owner: PlayerId,
    name: &str,
    power: i32,
    toughness: i32,
) -> ObjectId {
    let card = CardId(state.next_object_id);
    let id = create_object(
        state,
        card,
        owner,
        Text::new(name.to_string()),
        Zone::Battlefield,
    );
    let obj = state.objects.get_mut(&id).unwrap();
    obj.card_types.core_types.push(CoreType::Creature);
    obj.power = Some(power);
    obj.toughness = Some(toughness);
    obj.entered_battlefield_turn = Some(1);
    id
}

fn setup_combat(
    state: &mut GameState,
    attackers: Vec<ObjectId>,
    blocker_assignments: Vec<(ObjectId, Vec<ObjectId>)>,
) {
    let mut combat = CombatState::new();
    let mut infos: Vec<AttackerInfo> = attackers
        .iter()
        .map(|&id| AttackerInfo::attacking_player(id, PlayerId(1)))
        .collect();
    let mut blocked_by: Vec<(ObjectId, List<ObjectId>)> = Vec::new();
    for (attacker_id, blockers) in blocker_assignments {
        // CR 509.1h: Mark the attacker as blocked.
        if let Some(info) = infos.iter_mut().find(|a| a.object_id == attacker_id) {
            if !blockers.is_empty() {
                info.blocked = true;
            }
        }
        for &blocker_id in &blockers {
            match blocked_by.iter_mut().find(|(id, _)| *id == blocker_id) {
                Some((_, attackers)) => attackers.push(attacker_id),
                None => blocked_by.push((blocker_id, List::one(attacker_id))),
            }
        }
        combat
            .blocker_assignments
            .push((attacker_id, List::from_vec(blockers)));
    }
    combat.attackers = List::from_vec(infos);
    combat.blocker_to_attacker = List::from_vec(blocked_by);
    state.combat = Some(combat);
}

fn obj_mut(state: &mut GameState, id: ObjectId) -> &mut GameObject {
    state.objects.get_mut(&id).unwrap()
}

/// "Whenever one or more creatures you control deal combat damage to a player, draw a card."
fn draw_on_combat_damage() -> TriggerDefinition {
    TriggerDefinition {
        execute: Some(Rc::new(AbilityDefinition::new(
            AbilityKind::Spell,
            Effect::Draw {
                count: QuantityExpr::Fixed { value: 1 },
                target: TargetFilter::Controller,
            },
        ))),
        valid_source: Some(creatures_you_control()),
        valid_target: Some(TargetFilter::Player),
        ..TriggerDefinition::new(TriggerMode::DamageDoneOnceByController)
    }
}

fn creatures_you_control() -> TargetFilter {
    TargetFilter::Typed(TypedFilter {
        type_filters: List::one(TypeFilter::Creature),
        controller: Some(ControllerRef::You),
        properties: List::new(),
    })
}

/// Marks the one attacker as blocked.
fn mark_blocked(combat: &mut CombatState) {
    let info = *combat.attackers.get(0).unwrap();
    combat.attackers = List::one(AttackerInfo { blocked: true, ..info });
}

fn obj(state: &GameState, id: ObjectId) -> &GameObject {
    state.objects.get(&id).unwrap()
}

#[test]
fn unblocked_attacker_deals_damage_to_player() {
    let mut state = setup();
    let attacker = create_creature(&mut state, PlayerId(0), "Bear", 2, 2);
    setup_combat(&mut state, vec![attacker], vec![]);

    let mut events = Vec::new();
    resolve_combat_damage(&mut state, &mut events);

    assert_eq!(state.players[1].life, 18); // 20 - 2
}

#[test]
fn blocked_attacker_deals_damage_to_blocker() {
    let mut state = setup();
    let attacker = create_creature(&mut state, PlayerId(0), "Bear", 2, 2);
    let blocker = create_creature(&mut state, PlayerId(1), "Wall", 0, 4);
    setup_combat(&mut state, vec![attacker], vec![(attacker, vec![blocker])]);

    let mut events = Vec::new();
    resolve_combat_damage(&mut state, &mut events);

    // Attacker dealt 2 to blocker
    assert_eq!(obj(&state, blocker).damage_marked, 2);
    // Blocker dealt 0 to attacker
    assert_eq!(obj(&state, attacker).damage_marked, 0);
    // No player damage
    assert_eq!(state.players[1].life, 20);
}

// A creature buffed by a transient
// +1/+1 (Thoughtweft Lieutenant's ETB pump, Blossoming Defense, etc.) must
// have lethal combat damage measured against its MODIFIED toughness, not its
// base toughness. CR 510.1c + CR 704.5g: a creature is destroyed only when
// damage marked on it is >= its current toughness.
#[test]
fn buffed_attacker_survives_lethal_against_base_stat_blocker() {
    let mut state = setup();

    // Attacker: printed 2/2, buffed +1/+1 → effective 3/3.
    let attacker = create_creature(&mut state, PlayerId(0), "Kithkin", 2, 2);
    {
        let obj = state.objects.get_mut(&attacker).unwrap();
        obj.base_power = Some(2);
        obj.base_toughness = Some(2);
    }
    state
        .transient_continuous_effects
        .push(TransientContinuousEffect {
            source_id: attacker,
            controller: PlayerId(0),
            affected: TargetFilter::SelfRef,
            modifications: List::from_vec(vec![
                ContinuousModification::AddPower { value: 1 },
                ContinuousModification::AddToughness { value: 1 },
            ]),
        });

    evaluate_layers(&mut state);
    assert_eq!(
        obj(&state, attacker).toughness,
        Some(3),
        "buff must apply: 2/2 + 1/+1 = 3/3"
    );

    // Blocker equal to the attacker's BASE stats (2/2).
    let blocker = create_creature(&mut state, PlayerId(1), "Bear", 2, 2);
    setup_combat(&mut state, vec![attacker], vec![(attacker, vec![blocker])]);

    let mut events = Vec::new();
    resolve_combat_damage(&mut state, &mut events);
    assert_eq!(
        obj(&state, attacker).damage_marked, 2,
        "blocker deals 2 to attacker"
    );

    check_state_based_actions(&mut state, &mut events);

    // The buffed 3/3 took only 2 damage → it must SURVIVE.
    assert_eq!(
        obj(&state, attacker).zone,
        Zone::Battlefield,
        "buffed 3/3 must survive 2 damage from a 2/2 blocker"
    );
}

#[test]
fn blocked_attacker_with_unblocked_option_waits_for_assignment_choice() {
    let mut state = setup();
    let attacker = create_creature(&mut state, PlayerId(0), "Thorn Elemental", 5, 5);
    state
        .objects
        .get_mut(&attacker)
        .unwrap()
        .assigns_damage_as_though_unblocked = true;
    let blocker_a = create_creature(&mut state, PlayerId(1), "Wall A", 2, 2);
    let blocker_b = create_creature(&mut state, PlayerId(1), "Wall B", 2, 2);
    setup_combat(
        &mut state,
        vec![attacker],
        vec![(attacker, vec![blocker_a, blocker_b])],
    );

    let mut events = Vec::new();
    let waiting = resolve_combat_damage(&mut state, &mut events);

    match waiting {
        Some(WaitingFor::AssignCombatDamage {
            total_damage,
            blockers,
            assignment_modes,
            ..
        }) => {
            assert_eq!(total_damage, 5);
            assert_eq!(blockers.len(), 2);
            assert_eq!(
                assignment_modes.to_vec(),
                vec![
                    CombatDamageAssignmentMode::Normal,
                    CombatDamageAssignmentMode::AsThoughUnblocked,
                ]
            );
        }
        other => panic!("Expected AssignCombatDamage choice, got {other:?}"),
    }
}

#[test]
fn single_blocker_with_unblocked_option_waits_for_assignment_choice() {
    let mut state = setup();
    let attacker = create_creature(&mut state, PlayerId(0), "Thorn Elemental", 5, 5);
    state
        .objects
        .get_mut(&attacker)
        .unwrap()
        .assigns_damage_as_though_unblocked = true;
    let blocker = create_creature(&mut state, PlayerId(1), "Wall", 0, 4);
    setup_combat(&mut state, vec![attacker], vec![(attacker, vec![blocker])]);

    let mut events = Vec::new();
    let waiting = resolve_combat_damage(&mut state, &mut events);

    // CR 510.1c: Single blocker would normally auto-assign, but the
    // assigns-damage-as-though-unblocked flag forces interactive choice.
    match waiting {
        Some(WaitingFor::AssignCombatDamage {
            total_damage,
            blockers,
            assignment_modes,
            ..
        }) => {
            assert_eq!(total_damage, 5);
            assert_eq!(blockers.len(), 1);
            assert_eq!(
                assignment_modes.to_vec(),
                vec![
                    CombatDamageAssignmentMode::Normal,
                    CombatDamageAssignmentMode::AsThoughUnblocked,
                ]
            );
        }
        other => panic!("Expected AssignCombatDamage choice, got {other:?}"),
    }
}

#[test]
fn mutual_combat_damage() {
    let mut state = setup();
    let attacker = create_creature(&mut state, PlayerId(0), "Bear", 2, 2);
    let blocker = create_creature(&mut state, PlayerId(1), "Bear2", 2, 2);
    setup_combat(&mut state, vec![attacker], vec![(attacker, vec![blocker])]);

    let mut events = Vec::new();
    resolve_combat_damage(&mut state, &mut events);

    assert_eq!(obj(&state, attacker).damage_marked, 2);
    assert_eq!(obj(&state, blocker).damage_marked, 2);
}

#[test]
fn first_strike_kills_before_regular_damage() {
    let mut state = setup();
    let attacker = create_creature(&mut state, PlayerId(0), "Knight", 3, 2);
    state
        .objects
        .get_mut(&attacker)
        .unwrap()
        .keywords
        .push(Keyword::FirstStrike);
    let blocker = create_creature(&mut state, PlayerId(1), "Bear", 2, 2);
    setup_combat(&mut state, vec![attacker], vec![(attacker, vec![blocker])]);

    let mut events = Vec::new();
    resolve_combat_damage(&mut state, &mut events);

    // First strike dealt 3 damage (lethal) to blocker
    // SBAs ran between steps -- blocker should have been destroyed
    // Blocker can't deal damage back in regular step (dead)
    // Attacker should have 0 damage
    assert_eq!(obj(&state, attacker).damage_marked, 0);
    // Blocker should be in graveyard (SBAs ran between steps)
    assert!(!state.battlefield.contains(&blocker));
}

#[test]
fn double_strike_deals_damage_twice() {
    let mut state = setup();
    let attacker = create_creature(&mut state, PlayerId(0), "Knight", 3, 3);
    state
        .objects
        .get_mut(&attacker)
        .unwrap()
        .keywords
        .push(Keyword::DoubleStrike);
    setup_combat(&mut state, vec![attacker], vec![]);

    let mut events = Vec::new();
    resolve_combat_damage(&mut state, &mut events);

    // 3 + 3 = 6 damage to player
    assert_eq!(state.players[1].life, 14);
}

#[test]
fn trample_assigns_lethal_then_excess_to_player() {
    let mut state = setup();
    let attacker = create_creature(&mut state, PlayerId(0), "Fatty", 5, 5);
    state
        .objects
        .get_mut(&attacker)
        .unwrap()
        .keywords
        .push(Keyword::Trample);
    let blocker = create_creature(&mut state, PlayerId(1), "Bear", 2, 2);
    setup_combat(&mut state, vec![attacker], vec![(attacker, vec![blocker])]);

    let mut events = Vec::new();
    resolve_combat_damage(&mut state, &mut events);

    // 2 to blocker (lethal), 3 to player (trample excess)
    assert_eq!(obj(&state, blocker).damage_marked, 2);
    assert_eq!(state.players[1].life, 17);
}

#[test]
fn trample_deathtouch_assigns_one_to_each_blocker() {
    let mut state = setup();
    let attacker = create_creature(&mut state, PlayerId(0), "DT Trampler", 5, 5);
    state
        .objects
        .get_mut(&attacker)
        .unwrap()
        .keywords
        .push(Keyword::Trample);
    state
        .objects
        .get_mut(&attacker)
        .unwrap()
        .keywords
        .push(Keyword::Deathtouch);
    let blocker1 = create_creature(&mut state, PlayerId(1), "Bear1", 2, 2);
    let blocker2 = create_creature(&mut state, PlayerId(1), "Bear2", 2, 2);
    setup_combat(
        &mut state,
        vec![attacker],
        vec![(attacker, vec![blocker1, blocker2])],
    );

    let mut events = Vec::new();
    // 2+ blockers → returns WaitingFor::AssignCombatDamage.
    let waiting = resolve_combat_damage(&mut state, &mut events);
    assert!(matches!(
        waiting,
        Some(WaitingFor::AssignCombatDamage { .. })
    ));

    // Submit: 1 to each blocker (deathtouch lethal), 3 trample to player.
    if let Some(combat) = &mut state.combat {
        combat.pending_damage.push((
            attacker,
            DamageAssignment {
                target: DamageTarget::Object(blocker1),
                amount: 1,
            },
        ));
        combat.pending_damage.push((
            attacker,
            DamageAssignment {
                target: DamageTarget::Object(blocker2),
                amount: 1,
            },
        ));
        combat.pending_damage.push((
            attacker,
            DamageAssignment {
                target: DamageTarget::Player(PlayerId(1)),
                amount: 3,
            },
        ));
        combat.damage_step_index = Some(combat.damage_step_index.unwrap_or(0) + 1);
    }
    let result = resolve_combat_damage(&mut state, &mut events);
    assert!(result.is_none(), "All damage should be resolved");

    // With deathtouch, 1 to each blocker is lethal; 3 excess tramples to player
    assert_eq!(obj(&state, blocker1).damage_marked, 1);
    assert_eq!(obj(&state, blocker2).damage_marked, 1);
    assert_eq!(state.players[1].life, 17);
}

#[test]
fn lifelink_gains_life_on_combat_damage() {
    let mut state = setup();
    let attacker = create_creature(&mut state, PlayerId(0), "Lifelinker", 3, 3);
    state
        .objects
        .get_mut(&attacker)
        .unwrap()
        .keywords
        .push(Keyword::Lifelink);
    setup_combat(&mut state, vec![attacker], vec![]);

    let mut events = Vec::new();
    resolve_combat_damage(&mut state, &mut events);

    // 3 damage to defending player
    assert_eq!(state.players[1].life, 17);
    // 3 life gained by controller
    assert_eq!(state.players[0].life, 23);
}

/// CR 702.15b: Damage dealt by a source with lifelink causes that source's
/// controller to gain that much life — regardless of whether the damage is dealt
/// to a player or to a blocking creature.
#[test]
fn lifelink_gains_life_when_attacker_is_blocked() {
    let mut state = setup();
    // 3/3 attacker with lifelink, 2/2 vanilla blocker.
    let attacker = create_creature(&mut state, PlayerId(0), "Lifelinker", 3, 3);
    state
        .objects
        .get_mut(&attacker)
        .unwrap()
        .keywords
        .push(Keyword::Lifelink);
    let blocker = create_creature(&mut state, PlayerId(1), "Bear", 2, 2);
    setup_combat(&mut state, vec![attacker], vec![(attacker, vec![blocker])]);

    let mut events = Vec::new();
    resolve_combat_damage(&mut state, &mut events);

    // CR 702.15b: Controller gains life equal to damage dealt to the blocker (3).
    assert_eq!(
        state.players[0].life, 23,
        "Lifelink attacker should gain life from damage dealt to the blocker"
    );
    // Defending player took no damage (attacker was blocked).
    assert_eq!(state.players[1].life, 20);
    // Blocker took 3 damage (and dies via SBA).
    // Either damage_marked is 3 or it's already in the graveyard.
    let blocker_dead = state
        .objects
        .get(&blocker)
        .map(|o| o.zone != Zone::Battlefield)
        .unwrap_or(true);
    assert!(blocker_dead, "Blocker should have died from 3 damage");
}

#[test]
fn combat_no_combat_state_is_noop() {
    let mut state = setup();
    state.combat = None;
    let mut events = Vec::new();
    resolve_combat_damage(&mut state, &mut events);
    assert!(events.is_empty());
}

#[test]
fn multiple_blockers_returns_waiting_for_assignment() {
    let mut state = setup();
    let attacker = create_creature(&mut state, PlayerId(0), "Fatty", 5, 5);
    let blocker1 = create_creature(&mut state, PlayerId(1), "Bear1", 2, 2);
    let blocker2 = create_creature(&mut state, PlayerId(1), "Bear2", 2, 2);
    setup_combat(
        &mut state,
        vec![attacker],
        vec![(attacker, vec![blocker1, blocker2])],
    );

    let mut events = Vec::new();
    // CR 510.1c: 2+ blockers → interactive assignment required.
    let waiting = resolve_combat_damage(&mut state, &mut events);
    match &waiting {
        Some(WaitingFor::AssignCombatDamage {
            total_damage,
            blockers,
            trample,
            ..
        }) => {
            assert_eq!(*total_damage, 5);
            assert_eq!(blockers.len(), 2);
            assert!(trample.is_none());
        }
        other => panic!("Expected AssignCombatDamage, got {:?}", other),
    }

    // Submit: free division — all 5 to blocker1, 0 to blocker2 (legal under current rules).
    if let Some(combat) = &mut state.combat {
        combat.pending_damage.push((
            attacker,
            DamageAssignment {
                target: DamageTarget::Object(blocker1),
                amount: 5,
            },
        ));
        combat.damage_step_index = Some(combat.damage_step_index.unwrap_or(0) + 1);
    }
    let result = resolve_combat_damage(&mut state, &mut events);
    assert!(result.is_none(), "All damage should be resolved");

    // All 5 to blocker1, none to blocker2
    assert_eq!(obj(&state, blocker1).damage_marked, 5);
    assert_eq!(obj(&state, blocker2).damage_marked, 0);
    // No damage to player
    assert_eq!(state.players[1].life, 20);
}

#[test]
fn deathtouch_marks_flag_on_target() {
    let mut state = setup();
    let attacker = create_creature(&mut state, PlayerId(0), "DT", 1, 1);
    state
        .objects
        .get_mut(&attacker)
        .unwrap()
        .keywords
        .push(Keyword::Deathtouch);
    let blocker = create_creature(&mut state, PlayerId(1), "Bear", 2, 2);
    setup_combat(&mut state, vec![attacker], vec![(attacker, vec![blocker])]);

    let mut events = Vec::new();
    resolve_combat_damage(&mut state, &mut events);

    assert!(obj(&state, blocker).dealt_deathtouch_damage);
}

#[test]
fn wither_applies_minus_counters_to_creature_instead_of_damage() {
    let mut state = setup();
    let attacker = create_creature(&mut state, PlayerId(0), "Wither", 3, 3);
    state
        .objects
        .get_mut(&attacker)
        .unwrap()
        .keywords
        .push(Keyword::Wither);
    let blocker = create_creature(&mut state, PlayerId(1), "Bear", 2, 4);
    setup_combat(&mut state, vec![attacker], vec![(attacker, vec![blocker])]);

    let mut events = Vec::new();
    resolve_combat_damage(&mut state, &mut events);

    // Wither: 3 -1/-1 counters instead of damage_marked
    assert_eq!(obj(&state, blocker).damage_marked, 0);
    assert_eq!(
        obj(&state, blocker).counters.get(CounterType::Minus1Minus1),
        3
    );
}

#[test]
fn wither_to_player_deals_normal_damage() {
    let mut state = setup();
    let attacker = create_creature(&mut state, PlayerId(0), "Wither", 3, 3);
    state
        .objects
        .get_mut(&attacker)
        .unwrap()
        .keywords
        .push(Keyword::Wither);
    setup_combat(&mut state, vec![attacker], vec![]);

    let mut events = Vec::new();
    resolve_combat_damage(&mut state, &mut events);

    // Wither does NOT give poison to players, just normal damage
    assert_eq!(state.players[1].life, 17);
    assert_eq!(state.players[1].poison_counters, 0);
}

#[test]
fn infect_applies_minus_counters_to_creature() {
    let mut state = setup();
    let attacker = create_creature(&mut state, PlayerId(0), "Infector", 3, 3);
    state
        .objects
        .get_mut(&attacker)
        .unwrap()
        .keywords
        .push(Keyword::Infect);
    let blocker = create_creature(&mut state, PlayerId(1), "Bear", 2, 4);
    setup_combat(&mut state, vec![attacker], vec![(attacker, vec![blocker])]);

    let mut events = Vec::new();
    resolve_combat_damage(&mut state, &mut events);

    // Infect: -1/-1 counters on creature
    assert_eq!(obj(&state, blocker).damage_marked, 0);
    assert_eq!(
        obj(&state, blocker).counters.get(CounterType::Minus1Minus1),
        3
    );
}

#[test]
fn infect_to_player_gives_poison_no_life_loss() {
    let mut state = setup();
    let attacker = create_creature(&mut state, PlayerId(0), "Infector", 3, 3);
    state
        .objects
        .get_mut(&attacker)
        .unwrap()
        .keywords
        .push(Keyword::Infect);
    setup_combat(&mut state, vec![attacker], vec![]);

    let mut events = Vec::new();
    resolve_combat_damage(&mut state, &mut events);

    // Infect: poison counters, no life loss
    assert_eq!(state.players[1].life, 20);
    assert_eq!(state.players[1].poison_counters, 3);
}

#[test]
fn toxic_to_player_adds_poison_and_still_deals_damage() {
    let mut state = setup();
    let attacker = create_creature(&mut state, PlayerId(0), "Toxic", 3, 3);
    state
        .objects
        .get_mut(&attacker)
        .unwrap()
        .keywords
        .push(Keyword::Toxic(2));
    setup_combat(&mut state, vec![attacker], vec![]);

    let mut events = Vec::new();
    resolve_combat_damage(&mut state, &mut events);

    assert_eq!(state.players[1].life, 17);
    assert_eq!(state.players[1].poison_counters, 2);
}

#[test]
fn toxic_to_creature_does_not_add_poison() {
    let mut state = setup();
    let attacker = create_creature(&mut state, PlayerId(0), "Toxic", 3, 3);
    state
        .objects
        .get_mut(&attacker)
        .unwrap()
        .keywords
        .push(Keyword::Toxic(2));
    let blocker = create_creature(&mut state, PlayerId(1), "Bear", 2, 4);
    setup_combat(&mut state, vec![attacker], vec![(attacker, vec![blocker])]);

    let mut events = Vec::new();
    resolve_combat_damage(&mut state, &mut events);

    assert_eq!(obj(&state, blocker).damage_marked, 3);
    assert_eq!(state.players[1].poison_counters, 0);
}

#[test]
fn lifelink_works_with_infect() {
    let mut state = setup();
    let attacker = create_creature(&mut state, PlayerId(0), "InfectLinker", 3, 3);
    state
        .objects
        .get_mut(&attacker)
        .unwrap()
        .keywords
        .push(Keyword::Infect);
    state
        .objects
        .get_mut(&attacker)
        .unwrap()
        .keywords
        .push(Keyword::Lifelink);
    setup_combat(&mut state, vec![attacker], vec![]);

    let mut events = Vec::new();
    resolve_combat_damage(&mut state, &mut events);

    // Infect gives poison, but lifelink still triggers
    assert_eq!(state.players[1].poison_counters, 3);
    assert_eq!(state.players[0].life, 23); // gained 3 life
}

#[test]
fn commander_damage_tracked_when_commander_hits_player() {
    let mut state = setup();
    let attacker = create_creature(&mut state, PlayerId(0), "Commander", 5, 5);
    state.objects.get_mut(&attacker).unwrap().is_commander = true;
    setup_combat(&mut state, vec![attacker], vec![]);

    let mut events = Vec::new();
    resolve_combat_damage(&mut state, &mut events);

    // Commander dealt 5 damage to player 1
    assert_eq!(state.players[1].life, 15);
    // Commander damage tracked
    assert_eq!(state.commander_damage.len(), 1);
    assert_eq!(state.commander_damage[0].player, PlayerId(1));
    assert_eq!(state.commander_damage[0].commander, attacker);
    assert_eq!(state.commander_damage[0].damage, 5);
}

#[test]
fn commander_damage_accumulates_over_multiple_combats() {
    let mut state = setup();
    let attacker = create_creature(&mut state, PlayerId(0), "Commander", 3, 3);
    state.objects.get_mut(&attacker).unwrap().is_commander = true;
    setup_combat(&mut state, vec![attacker], vec![]);

    let mut events = Vec::new();
    resolve_combat_damage(&mut state, &mut events);
    assert_eq!(state.commander_damage[0].damage, 3);

    // Second combat
    state.combat = None;
    state.objects.get_mut(&attacker).unwrap().tapped = false;
    setup_combat(&mut state, vec![attacker], vec![]);
    events.clear();
    resolve_combat_damage(&mut state, &mut events);

    // Accumulated: 3 + 3 = 6
    assert_eq!(state.commander_damage[0].damage, 6);
}

#[test]
fn non_commander_damage_not_tracked() {
    let mut state = setup();
    let attacker = create_creature(&mut state, PlayerId(0), "Bear", 2, 2);
    // is_commander defaults to false
    setup_combat(&mut state, vec![attacker], vec![]);

    let mut events = Vec::new();
    resolve_combat_damage(&mut state, &mut events);

    assert_eq!(state.players[1].life, 18);
    assert!(state.commander_damage.is_empty());
}

#[test]
fn different_commanders_tracked_separately() {
    let mut state = setup();
    let cmd_a = create_creature(&mut state, PlayerId(0), "Cmd A", 3, 3);
    state.objects.get_mut(&cmd_a).unwrap().is_commander = true;
    let cmd_b = create_creature(&mut state, PlayerId(0), "Cmd B", 2, 2);
    state.objects.get_mut(&cmd_b).unwrap().is_commander = true;
    setup_combat(&mut state, vec![cmd_a, cmd_b], vec![]);

    let mut events = Vec::new();
    resolve_combat_damage(&mut state, &mut events);

    // Two separate entries
    assert_eq!(state.commander_damage.len(), 2);
    let entry_a = state
        .commander_damage
        .iter()
        .find(|e| e.commander == cmd_a)
        .unwrap();
    let entry_b = state
        .commander_damage
        .iter()
        .find(|e| e.commander == cmd_b)
        .unwrap();
    assert_eq!(entry_a.damage, 3);
    assert_eq!(entry_b.damage, 2);
}

#[test]
fn one_or_more_combat_damage_trigger_fires_once_per_damage_step() {
    let mut state = setup();
    let watcher = create_object(
        &mut state,
        CardId(500),
        PlayerId(0),
        Text::new("Professional Face-Breaker".to_string()),
        Zone::Battlefield,
    );
    obj_mut(&mut state, watcher)
        .trigger_definitions
        .push(draw_on_combat_damage());

    let attacker_a = create_creature(&mut state, PlayerId(0), "Attacker A", 2, 2);
    let attacker_b = create_creature(&mut state, PlayerId(0), "Attacker B", 3, 3);
    setup_combat(&mut state, vec![attacker_a, attacker_b], vec![]);

    let mut events = Vec::new();
    resolve_combat_damage(&mut state, &mut events);

    assert_eq!(state.stack.len(), 1);
    assert!(events.iter().any(|event| {
        matches!(
            event,
            GameEvent::CombatDamageDealtToPlayer {
                player_id,
                source_amounts,
                ..
            } if *player_id == PlayerId(1)
                && source_amounts.len() == 2
                && source_amounts.to_vec().iter().any(|(id, _)| *id == attacker_a)
                && source_amounts.to_vec().iter().any(|(id, _)| *id == attacker_b)
        )
    }));
}

#[test]
fn one_or_more_combat_damage_trigger_fires_in_each_double_strike_step() {
    let mut state = setup();
    let watcher = create_object(
        &mut state,
        CardId(600),
        PlayerId(0),
        Text::new("Damage Watcher".to_string()),
        Zone::Battlefield,
    );
    obj_mut(&mut state, watcher)
        .trigger_definitions
        .push(draw_on_combat_damage());

    let attacker = create_creature(&mut state, PlayerId(0), "Double Striker", 2, 2);
    state
        .objects
        .get_mut(&attacker)
        .unwrap()
        .keywords
        .push(Keyword::DoubleStrike);
    setup_combat(&mut state, vec![attacker], vec![]);

    let mut events = Vec::new();
    resolve_combat_damage(&mut state, &mut events);

    assert_eq!(state.stack.len(), 2);
    assert_eq!(
        events
            .iter()
            .filter(|event| matches!(event, GameEvent::CombatDamageDealtToPlayer { .. }))
            .count(),
        2
    );
}

/// Lifelink life gain during combat damage can activate a conditional
/// static +2/+2 ability, increasing toughness before SBAs check for lethal damage.
/// This validates the composition of three building blocks:
/// - CR 702.15b: Lifelink life gain simultaneous with damage
/// - CR 604.2: Static abilities create continuous effects while on the battlefield
/// - CR 704.3: SBAs re-evaluate layers before checking lethal damage
#[test]
fn lifelink_conditional_static_saves_from_lethal() {
    let mut state = setup();
    state.format_config.starting_life = 20;
    // Player 0 at 26 life — one lifelink hit (gaining 2) pushes past 27 threshold.
    state.players[0].life = 26;

    // Attacker A: 3/3 — blocked by 3/3. Takes 3 damage (lethal without buff, survives with +2/+2).
    let attacker_a = create_creature(&mut state, PlayerId(0), "Tank", 3, 3);
    // Attacker B: 2/2 with lifelink — unblocked, gains 2 life for controller.
    let attacker_b = create_creature(&mut state, PlayerId(0), "Lifelinker", 2, 2);
    state
        .objects
        .get_mut(&attacker_b)
        .unwrap()
        .keywords
        .push(Keyword::Lifelink);
    // Blocker: 3/3 blocking Attacker A.
    let blocker = create_creature(&mut state, PlayerId(1), "Blocker", 3, 3);

    // Enchantment with conditional static: "if life >= starting + 7, creatures you control get +2/+2"
    let ench_card_id = CardId(state.next_object_id);
    let ench_id = create_object(
        &mut state,
        ench_card_id,
        PlayerId(0),
        Text::new("Life Anthem".to_string()),
        Zone::Battlefield,
    );
    let ench = obj_mut(&mut state, ench_id);
    ench.card_types.core_types.push(CoreType::Enchantment);
    ench.static_definitions.push(StaticDefinition {
        mode: StaticMode::Continuous,
        affected: Some(creatures_you_control()),
        condition: Some(Rc::new(TriggerCondition::QuantityComparison {
            lhs: QuantityExpr::Ref {
                qty: QuantityRef::LifeAboveStarting,
            },
            comparator: Comparator::GE,
            rhs: QuantityExpr::Fixed { value: 7 },
        })),
        modifications: List::from_vec(vec![
            ContinuousModification::AddPower { value: 2 },
            ContinuousModification::AddToughness { value: 2 },
        ]),
    });

    setup_combat(
        &mut state,
        vec![attacker_a, attacker_b],
        vec![(attacker_a, vec![blocker])],
    );
    state.layers_dirty = true;

    let mut events = Vec::new();
    resolve_combat_damage(&mut state, &mut events);

    // CR 702.15b: Lifelink gained 2 life (26 → 28).
    assert_eq!(state.players[0].life, 28);

    // CR 604.2 + CR 704.3: Static +2/+2 activated before SBA lethal check.
    // Attacker A survived — toughness 5 (3 base + 2 static), damage was only 3.
    assert!(
        state.battlefield.contains(&attacker_a),
        "Attacker A should survive: toughness 5 (3+2) > 3 damage"
    );
    assert_eq!(obj(&state, attacker_a).damage_marked, 3);

    // Blocker died — took 3 damage on 3 toughness (attacker dealt 3 at assignment time).
    assert!(
        !state.battlefield.contains(&blocker),
        "Blocker should be destroyed: 3 damage >= 3 toughness"
    );

    // Defending player took 2 from unblocked lifelinker.
    assert_eq!(state.players[1].life, 18);
}

fn create_planeswalker(
    state: &mut GameState,
    owner: PlayerId,
    name: &str,
    loyalty: u32,
) -> ObjectId {
    let card = CardId(state.next_object_id);
    let id = create_object(
        state,
        card,
        owner,
        Text::new(name.to_string()),
        Zone::Battlefield,
    );
    let obj = state.objects.get_mut(&id).unwrap();
    obj.card_types.core_types.push(CoreType::Planeswalker);
    // CR 306.5b: loyalty field and counter map mirror each other.
    obj.loyalty = Some(loyalty);
    obj.counters.insert(CounterType::Loyalty, loyalty);
    id
}

// CR 510.1b: Unblocked creature attacking a planeswalker deals damage to the PW, not the player.
#[test]
fn unblocked_attacker_damages_planeswalker_not_player() {

    let mut state = setup();
    let attacker = create_creature(&mut state, PlayerId(0), "Grizzly Bears", 2, 2);
    let pw = create_planeswalker(&mut state, PlayerId(1), "Test Planeswalker", 4);

    state.combat = Some(CombatState {
        attackers: List::one(AttackerInfo::new(
            attacker,
            AttackTarget::Planeswalker(pw),
            PlayerId(1),
        )),
        ..CombatState::new()
    });

    let mut events = Vec::new();
    resolve_combat_damage(&mut state, &mut events);

    // PW should have lost 2 loyalty (4 → 2), player life unchanged
    let pw_obj = obj(&state, pw);
    assert_eq!(
        pw_obj.loyalty,
        Some(2),
        "PW should have 2 loyalty after 2 damage"
    );
    assert_eq!(state.players[1].life, 20, "Player life should be unchanged");
}

// CR 702.19f: Regular trample excess goes to the PW, not the defending player.
#[test]
fn trample_excess_goes_to_planeswalker_not_player() {

    let mut state = setup();
    let attacker = create_creature(&mut state, PlayerId(0), "Big Trampler", 5, 5);
    state
        .objects
        .get_mut(&attacker)
        .unwrap()
        .keywords
        .push(Keyword::Trample);
    let blocker = create_creature(&mut state, PlayerId(1), "Small Blocker", 1, 2);
    let pw = create_planeswalker(&mut state, PlayerId(1), "Test Planeswalker", 6);

    let mut combat = CombatState {
        attackers: List::one(AttackerInfo::new(
            attacker,
            AttackTarget::Planeswalker(pw),
            PlayerId(1),
        )),
        ..CombatState::new()
    };
    // Assign blocker
    combat.blocker_assignments.push((attacker, List::one(blocker)));
    combat.blocker_to_attacker.push((blocker, List::one(attacker)));
    mark_blocked(&mut combat);
    state.combat = Some(combat);

    let mut events = Vec::new();
    resolve_combat_damage(&mut state, &mut events);

    // Blocker has 2 toughness: 2 damage lethal, 3 excess to PW (not player)
    let pw_obj = obj(&state, pw);
    assert_eq!(
        pw_obj.loyalty,
        Some(3),
        "PW should have 3 loyalty (6 - 3 trample excess)"
    );
    assert_eq!(
        state.players[1].life, 20,
        "Player life should be unchanged — CR 702.19f"
    );
}

// CR 506.4c: If the PW leaves the battlefield before damage, attacker deals no damage.
#[test]
fn planeswalker_leaves_before_damage_no_damage_dealt() {

    let mut state = setup();
    let attacker = create_creature(&mut state, PlayerId(0), "Grizzly Bears", 2, 2);
    let pw = create_planeswalker(&mut state, PlayerId(1), "Doomed Planeswalker", 3);
    let pw_attack_target = AttackTarget::Planeswalker(pw);

    // Set up combat with attacker targeting the PW
    state.combat = Some(CombatState {
        attackers: List::one(AttackerInfo::new(attacker, pw_attack_target, PlayerId(1))),
        ..CombatState::new()
    });

    // Remove the PW from battlefield before damage
    if let Some(obj) = state.objects.get_mut(&pw) {
        obj.zone = Zone::Graveyard;
    }
    state.battlefield.retain(|&id| id != pw);

    let mut events = Vec::new();
    resolve_combat_damage(&mut state, &mut events);

    // CR 506.4c: No damage to player OR planeswalker
    assert_eq!(
        state.players[1].life, 20,
        "Player should take no damage when PW left"
    );
}

// ── Trample Over Planeswalkers (CR 702.19c) ────────────────────────────

// CR 702.19c: Single blocker + PW target + trample-over-PW → splits blocker/PW/controller.
#[test]
fn trample_over_pw_single_blocker_splits_damage() {

    let mut state = setup();
    // 7/7 with trample over planeswalkers
    let attacker = create_creature(&mut state, PlayerId(0), "Big Trampler", 7, 7);
    state
        .objects
        .get_mut(&attacker)
        .unwrap()
        .keywords
        .push(Keyword::TrampleOverPlaneswalkers);
    let blocker = create_creature(&mut state, PlayerId(1), "Bear", 2, 2);
    let pw = create_planeswalker(&mut state, PlayerId(1), "Jace", 3);

    let mut combat = CombatState {
        attackers: List::one(AttackerInfo::new(
            attacker,
            AttackTarget::Planeswalker(pw),
            PlayerId(1),
        )),
        ..CombatState::new()
    };
    combat.blocker_assignments.push((attacker, List::one(blocker)));
    combat.blocker_to_attacker.push((blocker, List::one(attacker)));
    mark_blocked(&mut combat);
    state.combat = Some(combat);

    let mut events = Vec::new();
    resolve_combat_damage(&mut state, &mut events);

    // 7 power: 2 lethal to blocker, 3 to PW (loyalty), 2 to PW controller
    assert_eq!(
        obj(&state, pw).loyalty,
        Some(0),
        "PW should have 0 loyalty (3 - 3)"
    );
    assert_eq!(
        state.players[1].life, 18,
        "Player should take 2 damage (7 - 2 blocker - 3 PW loyalty)"
    );
}

// CR 702.19f preserved: regular trample excess stays on PW, not controller.
#[test]
fn regular_trample_excess_stays_on_pw_not_controller() {

    let mut state = setup();
    let attacker = create_creature(&mut state, PlayerId(0), "Trampler", 7, 7);
    state
        .objects
        .get_mut(&attacker)
        .unwrap()
        .keywords
        .push(Keyword::Trample);
    let blocker = create_creature(&mut state, PlayerId(1), "Bear", 2, 2);
    let pw = create_planeswalker(&mut state, PlayerId(1), "Jace", 3);

    let mut combat = CombatState {
        attackers: List::one(AttackerInfo::new(
            attacker,
            AttackTarget::Planeswalker(pw),
            PlayerId(1),
        )),
        ..CombatState::new()
    };
    combat.blocker_assignments.push((attacker, List::one(blocker)));
    combat.blocker_to_attacker.push((blocker, List::one(attacker)));
    mark_blocked(&mut combat);
    state.combat = Some(combat);

    let mut events = Vec::new();
    resolve_combat_damage(&mut state, &mut events);

    // CR 702.19f: All 5 excess (7 - 2 lethal) goes to PW, not player
    assert_eq!(
        obj(&state, pw).loyalty,
        Some(0),
        "PW should lose all loyalty to excess"
    );
    assert_eq!(
        state.players[1].life, 20,
        "Player should take NO damage — CR 702.19f"
    );
}

// CR 702.19e: PW removed + trample-over-PW → damage redirects to defending player.
#[test]
fn trample_over_pw_redirects_when_pw_removed() {

    let mut state = setup();
    let attacker = create_creature(&mut state, PlayerId(0), "Trampler", 5, 5);
    state
        .objects
        .get_mut(&attacker)
        .unwrap()
        .keywords
        .push(Keyword::TrampleOverPlaneswalkers);
    let pw = create_planeswalker(&mut state, PlayerId(1), "Doomed PW", 4);

    state.combat = Some(CombatState {
        attackers: List::one(AttackerInfo::new(
            attacker,
            AttackTarget::Planeswalker(pw),
            PlayerId(1),
        )),
        ..CombatState::new()
    });

    // Remove PW before damage
    state.objects.get_mut(&pw).unwrap().zone = Zone::Graveyard;
    state.battlefield.retain(|&id| id != pw);

    let mut events = Vec::new();
    resolve_combat_damage(&mut state, &mut events);

    // CR 702.19e: All damage to defending player
    assert_eq!(
        state.players[1].life, 15,
        "5 damage should redirect to defending player — CR 702.19e"
    );
}

// CR 702.19b: Trample-over-PW attacking a player behaves like standard trample.
#[test]
fn trample_over_pw_attacking_player_behaves_as_standard() {

    let mut state = setup();
    let attacker = create_creature(&mut state, PlayerId(0), "Trampler", 5, 5);
    state
        .objects
        .get_mut(&attacker)
        .unwrap()
        .keywords
        .push(Keyword::TrampleOverPlaneswalkers);
    let blocker = create_creature(&mut state, PlayerId(1), "Bear", 2, 2);

    setup_combat(&mut state, vec![attacker], vec![(attacker, vec![blocker])]);

    let mut events = Vec::new();
    resolve_combat_damage(&mut state, &mut events);

    // 5 power: 2 lethal to blocker, 3 trample to player (same as standard trample)
    assert_eq!(
        state.players[1].life, 17,
        "3 trample damage to player — CR 702.19b"
    );
}

// CR 702.19d: Trample + blocked but no blockers remaining → damage to attack target.
#[test]
fn trample_blocked_no_blockers_damages_attack_target() {

    let mut state = setup();
    let attacker = create_creature(&mut state, PlayerId(0), "Trampler", 4, 4);
    state
        .objects
        .get_mut(&attacker)
        .unwrap()
        .keywords
        .push(Keyword::Trample);
    let blocker = create_creature(&mut state, PlayerId(1), "Bear", 2, 2);

    // Set up combat with blocker, then remove the blocker
    setup_combat(&mut state, vec![attacker], vec![(attacker, vec![blocker])]);
    // Remove blocker from the assignment list (simulating it left before damage)
    if let Some(c) = &mut state.combat {
        c.blocker_assignments = List::one((attacker, List::new()));
    }

    let mut events = Vec::new();
    resolve_combat_damage(&mut state, &mut events);

    // CR 702.19d: All damage to defending player
    assert_eq!(
        state.players[1].life, 16,
        "4 trample damage to player — CR 702.19d"
    );
}

// CR 702.19d + 702.19c: Trample-over-PW + blocked but no blockers + attacking PW.
#[test]
fn trample_over_pw_blocked_no_blockers_splits_pw_controller() {

    let mut state = setup();
    let attacker = create_creature(&mut state, PlayerId(0), "Trampler", 5, 5);
    state
        .objects
        .get_mut(&attacker)
        .unwrap()
        .keywords
        .push(Keyword::TrampleOverPlaneswalkers);
    let pw = create_planeswalker(&mut state, PlayerId(1), "Jace", 3);

    let mut combat = CombatState {
        attackers: List::one(AttackerInfo::new(
            attacker,
            AttackTarget::Planeswalker(pw),
            PlayerId(1),
        )),
        ..CombatState::new()
    };
    // Blocker was assigned but then removed
    combat.blocker_assignments.push((attacker, List::new()));
    mark_blocked(&mut combat);
    state.combat = Some(combat);

    let mut events = Vec::new();
    resolve_combat_damage(&mut state, &mut events);

    // CR 702.19d + 702.19c: 3 to PW (loyalty), 2 to controller
    assert_eq!(
        obj(&state, pw).loyalty,
        Some(0),
        "PW should have 0 loyalty"
    );
    assert_eq!(
        state.players[1].life, 18,
        "Player should take 2 damage (5 - 3 PW loyalty)"
    );
}

// CR 702.19c + CR 702.2c: Deathtouch + trample-over-PW maximizes spillover.
#[test]
fn deathtouch_trample_over_pw_maximizes_spillover() {

    let mut state = setup();
    let attacker = create_creature(&mut state, PlayerId(0), "DT Trampler", 6, 6);
    state
        .objects
        .get_mut(&attacker)
        .unwrap()
        .keywords
        .push(Keyword::TrampleOverPlaneswalkers);
    state
        .objects
        .get_mut(&attacker)
        .unwrap()
        .keywords
        .push(Keyword::Deathtouch);
    let blocker = create_creature(&mut state, PlayerId(1), "Bear", 2, 2);
    let pw = create_planeswalker(&mut state, PlayerId(1), "Jace", 3);

    let mut combat = CombatState {
        attackers: List::one(AttackerInfo::new(
            attacker,
            AttackTarget::Planeswalker(pw),
            PlayerId(1),
        )),
        ..CombatState::new()
    };
    combat.blocker_assignments.push((attacker, List::one(blocker)));
    combat.blocker_to_attacker.push((blocker, List::one(attacker)));
    mark_blocked(&mut combat);
    state.combat = Some(combat);

    let mut events = Vec::new();
    resolve_combat_damage(&mut state, &mut events);

    // 6 power: 1 deathtouch lethal to blocker, 3 to PW (loyalty), 2 to controller
    assert_eq!(
        obj(&state, pw).loyalty,
        Some(0),
        "PW should have 0 loyalty"
    );
    assert_eq!(
        state.players[1].life, 18,
        "Player should take 2 damage (6 - 1 deathtouch - 3 PW loyalty)"
    );
}

// Keyword FromStr round-trip.
#[test]
fn keyword_from_str_trample_over_planeswalkers() {
    let kw = Keyword::from_name("trample over planeswalkers").unwrap();
    assert_eq!(kw, Keyword::TrampleOverPlaneswalkers);
    // "trample" must still parse to regular Trample
    let kw2 = Keyword::from_name("trample").unwrap();
    assert_eq!(kw2, Keyword::Trample);
}

// --- Combat-damage prevention batch + Inkshield rider aggregation ---

/// An Inkshield-style shield ("prevent all combat damage to `player` this turn; for each 1
/// damage prevented this way, create a 2/1 Inkling"): it stands among the pending damage
/// replacements, with its token rider.
fn install_inkshield(state: &mut GameState, player: PlayerId) {
    let card = CardId(state.next_object_id);
    let shield_source = create_object(
        state,
        card,
        player,
        Text::new("Inkshield".to_string()),
        Zone::Stack,
    );

    let rider = TokenRider {
        tokens: TokenSpec {
            name: Text::new("Inkling".to_string()),
            power: PtValue::Fixed(2),
            toughness: PtValue::Fixed(1),
            supertypes: List::new(),
            core_types: List::one(CoreType::Creature),
            subtypes: List::one(Text::new("Inkling".to_string())),
            colors: List::from_vec(vec![ManaColor::White, ManaColor::Black]),
            keywords: List::one(Keyword::Flying),
            tapped: false,
            count: QuantityExpr::Fixed { value: 1 },
        },
        repeat_for: Some(QuantityExpr::Ref { qty: QuantityRef::EventContextAmount }),
        source_id: shield_source,
        controller: player,
    };

    state.pending_damage_replacements.push(ReplacementDefinition {
        combat_only: true,
        damage_target_filter: Some(DamageTargetFilter::Player {
            player: DamageTargetPlayerScope::Specific(player),
        }),
        runtime_execute: Some(Rc::new(rider)),
    });
}

fn count_inklings(state: &GameState) -> usize {
    state
        .objects
        .keys()
        .iter()
        .filter(|id| {
            let o = obj(state, **id);
            o.zone == Zone::Battlefield && o.name.read() == "Inkling"
        })
        .count()
}

/// Two unblocked 3/3 attackers hit an Inkshield controller. The
/// rider must fire once against the aggregate (6), creating 6 Inklings —
/// not 3+3 from two separate firings, and not 0 from a fragmented count.
#[test]
fn test_inkshield_aggregates_combat_damage_into_tokens() {
    let mut state = setup();
    // PlayerId(1) controls Inkshield; PlayerId(0) attacks them.
    install_inkshield(&mut state, PlayerId(1));

    let a1 = create_creature(&mut state, PlayerId(0), "Ogre", 3, 3);
    let a2 = create_creature(&mut state, PlayerId(0), "Ogre", 3, 3);
    setup_combat(&mut state, vec![a1, a2], vec![]);

    let mut events = Vec::new();
    resolve_combat_damage(&mut state, &mut events);

    // CR 615.6: prevented damage never happens — 0 life lost.
    assert_eq!(state.players[1].life, 20, "all 6 combat damage prevented");
    // CR 615.7 + CR 615.13: one rider firing against the aggregate of 6.
    assert_eq!(
        count_inklings(&state),
        6,
        "rider fires once for the whole batch: 3 + 3 = 6 Inklings"
    );
}

/// A double-strike attacker vs Inkshield. CR 510.4 — first-strike
/// and regular damage are separate combat-damage steps, each its own
/// simultaneous batch → its own rider firing. A 4/4 double-striker
/// prevents 4 then 4: two firings, 8 Inklings total.
#[test]
fn test_inkshield_double_strike_fires_rider_per_combat_step() {
    let mut state = setup();
    install_inkshield(&mut state, PlayerId(1));

    let attacker = create_creature(&mut state, PlayerId(0), "Striker", 4, 4);
    state
        .objects
        .get_mut(&attacker)
        .unwrap()
        .keywords
        .push(Keyword::DoubleStrike);
    setup_combat(&mut state, vec![attacker], vec![]);

    let mut events = Vec::new();
    resolve_combat_damage(&mut state, &mut events);

    assert_eq!(state.players[1].life, 20, "both strikes prevented");
    // CR 510.4: two separate combat-damage steps → two rider firings of 4.
    assert_eq!(
        count_inklings(&state),
        8,
        "double strike: 4 (first-strike step) + 4 (regular step) = 8"
    );
    // CR 510.4: two DamagePrevented events, one per combat-damage step.
    let prevented = events
        .iter()
        .filter(|e| matches!(e, GameEvent::DamagePrevented { .. }))
        .count();
    assert_eq!(prevented, 2, "one DamagePrevented per combat-damage step");
}

/// Trample attacker partially blocked, defending player shielded.
/// The trample-to-player damage batches with the to-creature assignment;
/// the shield aggregates only the player-targeted portion (CR 615.7).
#[test]
fn test_inkshield_trample_aggregates_only_player_portion() {
    let mut state = setup();
    install_inkshield(&mut state, PlayerId(1));

    let attacker = create_creature(&mut state, PlayerId(0), "Trampler", 5, 5);
    state
        .objects
        .get_mut(&attacker)
        .unwrap()
        .keywords
        .push(Keyword::Trample);
    let blocker = create_creature(&mut state, PlayerId(1), "Wall", 0, 2);
    setup_combat(&mut state, vec![attacker], vec![(attacker, vec![blocker])]);

    let mut events = Vec::new();
    resolve_combat_damage(&mut state, &mut events);

    // 2 lethal to the blocker, 3 trample over to the shielded player.
    assert_eq!(
        obj(&state, blocker).damage_marked, 2,
        "blocker takes its lethal portion — to-creature damage is not prevented"
    );
    assert_eq!(state.players[1].life, 20, "trample-over damage prevented");
    // CR 615.7: only the 3 player-targeted damage is aggregated.
    assert_eq!(count_inklings(&state), 3, "3 trample damage → 3 Inklings");
}

/// A mixed batch — attacker X hits a creature, attacker Y hits the
/// shielded player, in one `apply_combat_damage` call. The shield
/// aggregates only Y's amount (CR 615.7).
#[test]
fn test_inkshield_mixed_creature_and_player_batch() {
    let mut state = setup();
    install_inkshield(&mut state, PlayerId(1));

    let x = create_creature(&mut state, PlayerId(0), "Ogre X", 3, 3);
    let y = create_creature(&mut state, PlayerId(0), "Ogre Y", 4, 4);
    let blocker = create_creature(&mut state, PlayerId(1), "Wall", 0, 6);
    setup_combat(
        &mut state,
        vec![x, y],
        vec![(x, vec![blocker]), (y, vec![])],
    );

    let mut events = Vec::new();
    resolve_combat_damage(&mut state, &mut events);

    assert_eq!(
        obj(&state, blocker).damage_marked, 3,
        "X's 3 to-creature damage applies normally"
    );
    assert_eq!(
        state.players[1].life, 20,
        "Y's 4 to-player damage prevented"
    );
    assert_eq!(count_inklings(&state), 4, "only Y's 4 damage → 4 Inklings");
}

/// A deathtouch attacker in a batch alongside a prevented attacker.
/// The Phase A/B/C split must not disturb deathtouch marking — the
/// deathtouch creature still dies to SBA.
#[test]
fn test_deathtouch_unaffected_by_combat_damage_batch_split() {
    let mut state = setup();
    install_inkshield(&mut state, PlayerId(1));

    // Deathtouch attacker vs a fat blocker; prevented attacker hits player.
    let dt = create_creature(&mut state, PlayerId(0), "Adder", 1, 1);
    state
        .objects
        .get_mut(&dt)
        .unwrap()
        .keywords
        .push(Keyword::Deathtouch);
    let blocker = create_creature(&mut state, PlayerId(1), "Giant", 6, 6);
    let unblocked = create_creature(&mut state, PlayerId(0), "Ogre", 3, 3);
    setup_combat(
        &mut state,
        vec![dt, unblocked],
        vec![(dt, vec![blocker]), (unblocked, vec![])],
    );

    let mut events = Vec::new();
    resolve_combat_damage(&mut state, &mut events);

    // CR 702.2c: 1 deathtouch damage is lethal — the 6/6 blocker dies to SBA.
    assert!(
        state
            .objects
            .get(&blocker)
            .is_none_or(|o| o.zone != Zone::Battlefield),
        "deathtouch creature destroys the blocker via SBA"
    );
    // The prevented attacker still made 3 Inklings.
    assert_eq!(state.players[1].life, 20);
    assert_eq!(count_inklings(&state), 3);
}

/// Lifelink (CR 615.6 / CR 702.15b). A fully prevented lifelink
/// attacker gains 0 life; a non-prevented lifelink attacker in the same
/// batch still gains life.
#[test]
fn test_lifelink_prevented_gains_no_life_unprevented_still_gains() {
    // Case A: lifelink attacker fully prevented → 0 life gained.
    let mut state = setup();
    install_inkshield(&mut state, PlayerId(1));
    let ll = create_creature(&mut state, PlayerId(0), "Vampire", 3, 3);
    state
        .objects
        .get_mut(&ll)
        .unwrap()
        .keywords
        .push(Keyword::Lifelink);
    setup_combat(&mut state, vec![ll], vec![]);
    let mut events = Vec::new();
    resolve_combat_damage(&mut state, &mut events);
    assert_eq!(
        state.players[0].life, 20,
        "CR 615.6: prevented damage never happens — no lifelink"
    );

    // Case B: lifelink attacker NOT prevented, batched alongside a
    // prevented attacker → lifelink still fires.
    let mut state = setup();
    install_inkshield(&mut state, PlayerId(1));
    let prevented = create_creature(&mut state, PlayerId(0), "Ogre", 3, 3);
    let pw_target = create_creature(&mut state, PlayerId(1), "Bear", 2, 2);
    let ll = create_creature(&mut state, PlayerId(0), "Vampire", 3, 3);
    state
        .objects
        .get_mut(&ll)
        .unwrap()
        .keywords
        .push(Keyword::Lifelink);
    // lifelink attacker hits a creature (not the shielded player).
    setup_combat(
        &mut state,
        vec![prevented, ll],
        vec![(prevented, vec![]), (ll, vec![pw_target])],
    );
    let mut events = Vec::new();
    resolve_combat_damage(&mut state, &mut events);
    assert_eq!(
        state.players[0].life, 23,
        "lifelink attacker's 3 to-creature damage gains 3 life"
    );
    assert_eq!(state.players[1].life, 20, "the other attacker is prevented");
}

/// Commander damage bookkeeping. A commander attacker prevented +
/// a commander attacker dealing damage in one batch — `commander_damage`
/// accrues only the unprevented commander (CR 704.6c).
#[test]
fn test_commander_damage_accrues_only_unprevented_commander() {
    let mut state = setup();
    install_inkshield(&mut state, PlayerId(1));

    let prevented_cmdr = create_creature(&mut state, PlayerId(0), "Cmdr A", 4, 4);
    state.objects.get_mut(&prevented_cmdr).unwrap().is_commander = true;
    let dealing_cmdr = create_creature(&mut state, PlayerId(0), "Cmdr B", 5, 5);
    state.objects.get_mut(&dealing_cmdr).unwrap().is_commander = true;

    // Both attack PlayerId(1). The shield prevents ALL combat damage to
    // PlayerId(1), so commander damage must accrue 0 for both.
    setup_combat(&mut state, vec![prevented_cmdr, dealing_cmdr], vec![]);
    let mut events = Vec::new();
    resolve_combat_damage(&mut state, &mut events);

    // CR 704.6c: prevented commander damage does not accrue.
    let total: u32 = state
        .commander_damage
        .iter()
        .filter(|e| e.player == PlayerId(1))
        .map(|e| e.damage)
        .sum();
    assert_eq!(total, 0, "fully prevented — no commander damage accrues");

    // Now an unblocked commander with the shield gone: damage accrues.
    let mut state = setup();
    let cmdr = create_creature(&mut state, PlayerId(0), "Cmdr", 5, 5);
    state.objects.get_mut(&cmdr).unwrap().is_commander = true;
    setup_combat(&mut state, vec![cmdr], vec![]);
    let mut events = Vec::new();
    resolve_combat_damage(&mut state, &mut events);
    let entry = state
        .commander_damage
        .iter()
        .find(|e| e.player == PlayerId(1) && e.commander == cmdr);
    assert_eq!(
        entry.map(|e| e.damage),
        Some(5),
        "unprevented commander accrues 5 combat damage"
    );
}

fn of_subtype(words: &str) -> TargetFilter {
    TargetFilter::Typed(TypedFilter {
        type_filters: List::one(TypeFilter::Subtype(Text::new(words.to_string()))),
        controller: Some(ControllerRef::You),
        properties: List::new(),
    })
}

/// One matching source among two is enough for a "one or more" trigger, which fires once.
#[test]
fn one_or_more_combat_damage_trigger_fires_once_for_its_matching_sources() {
    let mut state = setup();
    let watcher = create_object(
        &mut state,
        CardId(550),
        PlayerId(0),
        Text::new("Heroes in a Half Shell".to_string()),
        Zone::Battlefield,
    );
    obj_mut(&mut state, watcher).trigger_definitions.push(TriggerDefinition {
        execute: Some(Rc::new(AbilityDefinition::new(
            AbilityKind::Spell,
            Effect::PutCounterAll {
                counter_type: CounterType::Plus1Plus1,
                count: QuantityExpr::Fixed { value: 1 },
                target: TargetFilter::TrackedSet { id: TrackedSetId(0) },
            },
        ))),
        valid_source: Some(TargetFilter::Or {
            filters: List::from_vec(vec![
                of_subtype("Mutant"),
                of_subtype("Ninja"),
                of_subtype("Turtle"),
            ]),
        }),
        valid_target: Some(TargetFilter::Player),
        ..TriggerDefinition::new(TriggerMode::DamageDoneOnceByController)
    });

    let mutant = create_creature(&mut state, PlayerId(0), "Mutant", 2, 2);
    let human = create_creature(&mut state, PlayerId(0), "Human", 2, 2);
    for (id, words) in [(mutant, "Mutant"), (human, "Human")] {
        let subtypes = &mut obj_mut(&mut state, id).card_types.subtypes;
        subtypes.push(Text::new(words.to_string()));
    }
    state.tracked_object_sets.insert(TrackedSetId(99), List::one(human));
    setup_combat(&mut state, vec![mutant, human], vec![]);

    let mut events = Vec::new();
    resolve_combat_damage(&mut state, &mut events);
    assert_eq!(state.stack.len(), 1);
    assert_eq!(state.stack[0].source_id, watcher);
}
