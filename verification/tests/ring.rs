//! The Ring and its bearers.

use engine::ability::{Effect, PlayerFilter, QuantityExpr, ResolvedAbility, TargetFilter};
use engine::combat::can_block_pair;
use engine::effects::ring::resolve;
use engine::events::{EffectKind, GameEvent};
use engine::ids::{CardId, CoreType, ObjectId, PlayerId, Supertype, Zone};
use engine::layers::evaluate_layers;
use engine::list::List;
use engine::object::CardType;
use engine::state::{GameState, WaitingFor};
use engine::text::Text;
use engine::triggers::process_triggers;
use engine::zones::{create_object, move_to_zone};

fn make_creature(state: &mut GameState, card_id: u64, controller: PlayerId) -> ObjectId {
    let oid = create_object(
        state,
        CardId(card_id),
        controller,
        Text::new(format!("Creature {card_id}")),
        Zone::Battlefield,
    );
    let obj = state.objects.get_mut(&oid).unwrap();
    obj.card_types = CardType {
        supertypes: List::new(),
        core_types: List::one(CoreType::Creature),
        subtypes: List::new(),
    };
    oid
}

#[test]
fn ring_tempts_emits_effect_resolved_event() {
    let mut state = GameState::new_two_player(42);
    let ability = ResolvedAbility::new(Effect::RingTemptsYou, Vec::new(), ObjectId(1), PlayerId(0));
    let mut events = Vec::new();

    resolve(&mut state, &ability, &mut events).unwrap();

    assert!(events.iter().any(|e| matches!(
        e,
        GameEvent::EffectResolved {
            kind: EffectKind::RingTemptsYou,
            ..
        }
    )));
}

#[test]
fn ring_level_caps_at_four() {
    let mut state = GameState::new_two_player(42);
    let ability = ResolvedAbility::new(Effect::RingTemptsYou, Vec::new(), ObjectId(1), PlayerId(0));

    // Tempt 5 times — level should cap at 4
    for _ in 0..5 {
        let mut events = Vec::new();
        resolve(&mut state, &ability, &mut events).unwrap();
    }

    assert_eq!(*state.ring_level.get(&PlayerId(0)).unwrap(), 4);
}

#[test]
fn ring_tempts_auto_selects_single_creature() {
    let mut state = GameState::new_two_player(42);
    let creature_id = make_creature(&mut state, 1, PlayerId(0));
    let ability =
        ResolvedAbility::new(Effect::RingTemptsYou, Vec::new(), ObjectId(99), PlayerId(0));
    let mut events = Vec::new();

    resolve(&mut state, &ability, &mut events).unwrap();

    assert_eq!(
        state.ring_bearer.get(&PlayerId(0)),
        Some(&Some(creature_id))
    );
}

#[test]
fn ring_tempts_prompts_choice_for_multiple_creatures() {
    let mut state = GameState::new_two_player(42);
    make_creature(&mut state, 1, PlayerId(0));
    make_creature(&mut state, 2, PlayerId(0));
    let ability =
        ResolvedAbility::new(Effect::RingTemptsYou, Vec::new(), ObjectId(99), PlayerId(0));
    let mut events = Vec::new();

    resolve(&mut state, &ability, &mut events).unwrap();

    assert!(matches!(
        state.waiting_for,
        WaitingFor::ChooseRingBearer { .. }
    ));
}

#[test]
fn ring_tempts_no_creatures_still_increments_level() {
    let mut state = GameState::new_two_player(42);
    let ability = ResolvedAbility::new(Effect::RingTemptsYou, Vec::new(), ObjectId(1), PlayerId(0));
    let mut events = Vec::new();

    resolve(&mut state, &ability, &mut events).unwrap();

    assert_eq!(*state.ring_level.get(&PlayerId(0)).unwrap(), 1);
    assert_eq!(state.ring_bearer.get(&PlayerId(0)), None);
}

#[test]
fn ring_bearer_is_legendary_from_the_ring_emblem() {
    let mut state = GameState::new_two_player(42);
    let creature_id = make_creature(&mut state, 1, PlayerId(0));
    state.ring_level.insert(PlayerId(0), 1);
    state.ring_bearer.insert(PlayerId(0), Some(creature_id));
    state.layers_dirty = true;

    evaluate_layers(&mut state);

    assert!(state.objects.get(&creature_id).unwrap()
        .card_types
        .supertypes
        .contains(&Supertype::Legendary));
}

#[test]
fn ring_bearer_cant_be_blocked_by_greater_power_creature() {
    let mut state = GameState::new_two_player(42);
    let attacker = make_creature(&mut state, 1, PlayerId(0));
    let blocker = make_creature(&mut state, 2, PlayerId(1));
    state.objects.get_mut(&attacker).unwrap().power = Some(2);
    state.objects.get_mut(&blocker).unwrap().power = Some(3);
    state.ring_level.insert(PlayerId(0), 1);
    state.ring_bearer.insert(PlayerId(0), Some(attacker));

    assert!(!can_block_pair(&state, blocker, attacker));

    state.objects.get_mut(&blocker).unwrap().power = Some(2);
    assert!(can_block_pair(&state, blocker, attacker));
}

#[test]
fn ring_bearer_designation_clears_when_object_leaves_battlefield() {
    let mut state = GameState::new_two_player(42);
    let creature_id = make_creature(&mut state, 1, PlayerId(0));
    state.ring_level.insert(PlayerId(0), 1);
    state.ring_bearer.insert(PlayerId(0), Some(creature_id));
    let mut events = Vec::new();

    move_to_zone(&mut state, creature_id, Zone::Graveyard, &mut events);

    assert_eq!(state.ring_bearer.get(&PlayerId(0)), None);
}

#[test]
fn ring_level_two_attack_queues_draw_then_discard_trigger() {
    let mut state = GameState::new_two_player(42);
    let bearer = make_creature(&mut state, 1, PlayerId(0));
    state.ring_level.insert(PlayerId(0), 2);
    state.ring_bearer.insert(PlayerId(0), Some(bearer));

    process_triggers(
        &mut state,
        &[GameEvent::AttackersDeclared {
            attacker_ids: List::one(bearer),
            defending_player: PlayerId(1),
            attacks: List::new(),
        }],
    );

    let ability = state.stack.last().unwrap().ability().unwrap();
    assert!(matches!(&*ability.effect, Effect::Draw { .. }));
    assert!(matches!(
        ability.sub_ability.as_ref().map(|sub| &*sub.effect),
        Some(Effect::Discard { .. })
    ));
}

#[test]
fn ring_level_three_block_sets_up_the_sacrifice_of_the_blocker() {
    let mut state = GameState::new_two_player(42);
    let bearer = make_creature(&mut state, 1, PlayerId(0));
    let blocker = make_creature(&mut state, 2, PlayerId(1));
    state.ring_level.insert(PlayerId(0), 3);
    state.ring_bearer.insert(PlayerId(0), Some(bearer));

    process_triggers(
        &mut state,
        &[GameEvent::BlockersDeclared {
            assignments: List::one((blocker, bearer)),
        }],
    );

    let ability = state.stack.last().unwrap().ability().unwrap();
    assert_eq!(ability.controller, PlayerId(0));
    let Effect::CreateDelayedTrigger { effect, .. } = &*ability.effect else {
        panic!("expected The Ring level 3 to create a delayed trigger");
    };
    let Effect::Sacrifice { target, .. } = &**effect else {
        panic!("expected delayed trigger to sacrifice the blocker");
    };
    let TargetFilter::And { filters } = target else {
        panic!("expected delayed trigger to scope sacrifice by blocker controller");
    };
    let specific = TargetFilter::SpecificObject { id: blocker };
    assert!((0..filters.len()).any(|i| filters.get(i) == Some(&specific)));
}

#[test]
fn ring_level_four_combat_damage_queues_each_opponent_loses_life_trigger() {
    let mut state = GameState::new_two_player(42);
    let bearer = make_creature(&mut state, 1, PlayerId(0));
    state.ring_level.insert(PlayerId(0), 4);
    state.ring_bearer.insert(PlayerId(0), Some(bearer));

    process_triggers(
        &mut state,
        &[GameEvent::CombatDamageDealtToPlayer {
            player_id: PlayerId(1),
            source_amounts: List::one((bearer, 3)),
            total_damage: 3,
        }],
    );

    let ability = state.stack.last().unwrap().ability().unwrap();
    assert!(matches!(
        &*ability.effect,
        Effect::LoseLife {
            amount: QuantityExpr::Fixed { value: 3 },
            ..
        }
    ));
    assert_eq!(ability.player_scope, Some(PlayerFilter::Opponent));
}
