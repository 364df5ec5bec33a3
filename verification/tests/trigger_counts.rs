//! Each trigger fires once for one event, and once more for each doubler.

use engine::ability::{
    AbilityDefinition, AbilityKind, AggregateFunction, Effect, FilterProp, PlayerScope,
    QuantityExpr, QuantityRef, StaticDefinition, StaticMode, TargetFilter, TriggerCause,
    TriggerCondition, TriggerDefinition, TriggerMode, TypeFilter, TypedFilter,
};
use engine::events::{GameEvent, ZoneChangeRecord};
use engine::ids::{
    AttackTarget, CardId, Comparator, ControllerRef, CoreType, ObjectId, PlayerId, TargetRef, Zone,
};
use engine::list::List;
use engine::object::Player;
use engine::state::{FormatConfig, GameState};
use engine::text::Text;
use engine::triggers::process_triggers;
use engine::triggers::conditions::check_trigger_condition;
use engine::triggers::placing::apply_trigger_doubling;
use engine::zones::create_object;
use std::rc::Rc;

fn text(words: &str) -> Text {
    Text::new(words.to_string())
}

/// Triggers as they read on a card.
trait BuildTrigger {
    fn execute(self, ability: AbilityDefinition) -> Self;
    fn valid_card(self, filter: TargetFilter) -> Self;
}

impl BuildTrigger for TriggerDefinition {
    fn execute(self, ability: AbilityDefinition) -> Self {
        TriggerDefinition { execute: Some(Rc::new(ability)), ..self }
    }
    fn valid_card(self, filter: TargetFilter) -> Self {
        TriggerDefinition { valid_card: Some(filter), ..self }
    }
}

/// Filters as they read on a card.
trait BuildFilter: Sized {
    fn of(types: Vec<TypeFilter>) -> Self;
    fn controller(self, who: ControllerRef) -> Self;
    fn new(kind: TypeFilter) -> Self {
        Self::of(vec![kind])
    }
    fn creature() -> Self {
        Self::new(TypeFilter::Creature)
    }
    fn land() -> Self {
        Self::new(TypeFilter::Land)
    }
}

impl BuildFilter for TypedFilter {
    fn of(types: Vec<TypeFilter>) -> Self {
        TypedFilter {
            type_filters: List::from_vec(types),
            controller: None,
            properties: List::new(),
        }
    }
    fn controller(self, who: ControllerRef) -> Self {
        TypedFilter { controller: Some(who), ..self }
    }
}

/// Static abilities as they read on a card.
trait BuildStatic: Sized {
    fn new(mode: StaticMode) -> Self;
    fn affected(self, filter: TargetFilter) -> Self;
}

impl BuildStatic for StaticDefinition {
    fn new(mode: StaticMode) -> Self {
        StaticDefinition { mode, affected: None, condition: None, modifications: List::new() }
    }
    fn affected(self, filter: TargetFilter) -> Self {
        StaticDefinition { affected: Some(filter), ..self }
    }
}

/// The one trigger of an object, to be changed.
fn edit_trigger(state: &mut GameState, id: ObjectId) -> &mut TriggerDefinition {
    let node = state.objects.get_mut(&id).unwrap().trigger_definitions.node.as_mut().unwrap();
    Rc::get_mut(&mut Rc::get_mut(node).unwrap().item).unwrap()
}

/// Build a minimal `Draw 1` triggered ability that matches a given mode.
fn draw_one_trigger(mode: TriggerMode) -> TriggerDefinition {
    TriggerDefinition::new(mode)
        .valid_card(TargetFilter::SelfRef)
        .execute(AbilityDefinition::new(
            AbilityKind::Database,
            Effect::Draw {
                count: QuantityExpr::Fixed { value: 1 },
                target: TargetFilter::Controller,
            },
        ))
}

fn setup_with_observer(mode: TriggerMode) -> (GameState, ObjectId) {
    let mut state = GameState::new_two_player(42);
    let observer = create_object(
        &mut state,
        CardId(1),
        PlayerId(0),
        text("Observer"),
        Zone::Battlefield,
    );
    {
        let obj = state.objects.get_mut(&observer).unwrap();
        obj.card_types.core_types.push(CoreType::Creature);
        obj.entered_battlefield_turn = Some(1);
        // Self-ref-only valid_card would restrict to ETB of self; for observer
        // triggers we want to match any qualifying event. Swap to TargetFilter::Any.
        let mut trigger = draw_one_trigger(mode);
        trigger.valid_card = Some(TargetFilter::Any);
        obj.trigger_definitions.push(trigger);
    }
    (state, observer)
}

/// ETB observer trigger: one creature entering produces exactly one trigger.
/// Mischievous Mystic's ETB trigger used to double-register when
/// synthesis ran twice, producing two tokens from one ETB.
#[test]
fn etb_observer_fires_once_per_event() {
    let (mut state, observer) = setup_with_observer(TriggerMode::ChangesZone);
    edit_trigger(&mut state, observer).destination = Some(Zone::Battlefield);

    let new_etb = create_object(
        &mut state,
        CardId(2),
        PlayerId(0),
        text("Newcomer"),
        Zone::Battlefield,
    );
    state
        .objects
        .get_mut(&new_etb)
        .unwrap()
        .card_types
        .core_types
        .push(CoreType::Creature);

    let event = GameEvent::ZoneChanged {
        object_id: new_etb,
        from: Some(Zone::Hand),
        to: Zone::Battlefield,
        record: Rc::new(ZoneChangeRecord::minimal(
            new_etb,
            Some(Zone::Hand),
            Zone::Battlefield,
        )),
    };

    process_triggers(&mut state, &[event]);
    assert_eq!(
        state.stack.len(),
        1,
        "ETB observer should register exactly one trigger per ETB event"
    );
}

/// Attacks observer: a non-batched "whenever a creature attacks" trigger
/// registers once per AttackersDeclared event. Najeela-style
/// triggers registered multiply when zone scanners double-visited.
#[test]
fn attacks_observer_fires_once_per_event() {
    let (mut state, observer) = setup_with_observer(TriggerMode::Attacks);
    let attacker = create_object(
        &mut state,
        CardId(3),
        PlayerId(0),
        text("Attacker"),
        Zone::Battlefield,
    );
    state
        .objects
        .get_mut(&attacker)
        .unwrap()
        .card_types
        .core_types
        .push(CoreType::Creature);

    let event = GameEvent::AttackersDeclared {
        attacker_ids: List::from_vec(vec![attacker]),
        defending_player: PlayerId(1),
        attacks: List::from_vec(vec![(
            attacker,
            AttackTarget::Player(PlayerId(1)),
        )]),
    };

    process_triggers(&mut state, &[event]);
    let observer_triggers = state
        .stack
        .iter()
        .filter(|e| e.source_id == observer)
        .count();
    assert_eq!(
        observer_triggers, 1,
        "Attack observer should register exactly one trigger per AttackersDeclared"
    );
}

/// SpellCast observer: spell-cast triggers register once per SpellCast event.
#[test]
fn spell_cast_observer_fires_once_per_event() {
    let (mut state, observer) = setup_with_observer(TriggerMode::SpellCast);
    let spell = create_object(
        &mut state,
        CardId(4),
        PlayerId(0),
        text("Spell"),
        Zone::Stack,
    );
    state
        .objects
        .get_mut(&spell)
        .unwrap()
        .card_types
        .core_types
        .push(CoreType::Instant);

    let event = GameEvent::SpellCast {
        card_id: CardId(4),
        controller: PlayerId(0),
        object_id: spell,
    };

    process_triggers(&mut state, &[event]);
    let observer_triggers = state
        .stack
        .iter()
        .filter(|e| e.source_id == observer)
        .count();
    assert_eq!(
        observer_triggers, 1,
        "SpellCast observer should register exactly one trigger per SpellCast event"
    );
}

/// DamageDealt observer: damage-event triggers register once per DamageDealt.
/// Mana Cannons damage fired 4-6× due to multi-path zone scans.
#[test]
fn damage_observer_fires_once_per_event() {
    let (mut state, observer) = setup_with_observer(TriggerMode::DamageDone);
    let source = create_object(
        &mut state,
        CardId(5),
        PlayerId(0),
        text("Damage Source"),
        Zone::Battlefield,
    );
    state
        .objects
        .get_mut(&source)
        .unwrap()
        .card_types
        .core_types
        .push(CoreType::Creature);

    let event = GameEvent::DamageDealt {
        source_id: source,
        target: TargetRef::Player(PlayerId(1)),
        amount: 3,
        is_combat: false,
        excess: 0,
    };

    process_triggers(&mut state, &[event]);
    let observer_triggers = state
        .stack
        .iter()
        .filter(|e| e.source_id == observer)
        .count();
    assert_eq!(
        observer_triggers, 1,
        "DamageDone observer should register exactly one trigger per DamageDealt event"
    );
}

/// Sacrifice observer: "whenever a permanent is sacrificed" fires once per
/// PermanentSacrificed event, not once per zone scan.
#[test]
fn sacrifice_observer_fires_once_per_event() {
    let (mut state, observer) = setup_with_observer(TriggerMode::Sacrificed);
    let victim = create_object(
        &mut state,
        CardId(6),
        PlayerId(0),
        text("Victim"),
        Zone::Graveyard,
    );
    state
        .objects
        .get_mut(&victim)
        .unwrap()
        .card_types
        .core_types
        .push(CoreType::Creature);

    let event = GameEvent::PermanentSacrificed {
        object_id: victim,
        player_id: PlayerId(0),
    };

    process_triggers(&mut state, &[event]);
    let observer_triggers = state
        .stack
        .iter()
        .filter(|e| e.source_id == observer)
        .count();
    assert_eq!(
        observer_triggers, 1,
        "Sacrifice observer should register exactly one trigger per PermanentSacrificed"
    );
}

/// Landfall: "whenever a land enters the battlefield under your control"
/// fires once per land ETB. Icetill Explorer's landfall fired
/// multiple times when multi-zone scans visited the same trigger_def.
#[test]
fn landfall_fires_once_per_land_etb() {
    let (mut state, observer) = setup_with_observer(TriggerMode::ChangesZone);
    edit_trigger(&mut state, observer).destination = Some(Zone::Battlefield);
    // Narrow the valid_card to lands to mimic landfall's filter.
    edit_trigger(&mut state, observer).valid_card = Some(TargetFilter::Typed(
        TypedFilter::land(),
    ));

    let land = create_object(
        &mut state,
        CardId(7),
        PlayerId(0),
        text("Mountain"),
        Zone::Battlefield,
    );
    state
        .objects
        .get_mut(&land)
        .unwrap()
        .card_types
        .core_types
        .push(CoreType::Land);

    let event = GameEvent::ZoneChanged {
        object_id: land,
        from: Some(Zone::Hand),
        to: Zone::Battlefield,
        record: Rc::new(ZoneChangeRecord {
            name: text("Mountain"),
            core_types: List::from_vec(vec![CoreType::Land]),
            subtypes: List::from_vec(vec![text("Mountain")]),
            ..ZoneChangeRecord::minimal(land, Some(Zone::Hand), Zone::Battlefield)
        }),
    };

    process_triggers(&mut state, &[event]);
    assert_eq!(
        state.stack.len(),
        1,
        "Landfall should register exactly one trigger per land ETB"
    );
}

/// Panharmonicon-style trigger doubling must still produce exactly 2 stack
/// instances from 1 matching event — the per-event dedup applies to
/// *registration* of trigger definitions, not to the post-registration
/// `apply_trigger_doubling` cloning pass.
#[test]
fn panharmonicon_still_doubles_after_dedup() {
    let (mut state, _observer) = setup_with_observer(TriggerMode::ChangesZone);
    // Scope the observer trigger to ETB.
    // Find the first battlefield object (our observer) to seed.
    let observer_id = *state.battlefield.iter().next().unwrap();
    edit_trigger(&mut state, observer_id).destination = Some(Zone::Battlefield);

    // Put a Panharmonicon on the battlefield with its static.
    let panh = create_object(
        &mut state,
        CardId(8),
        PlayerId(0),
        text("Panharmonicon"),
        Zone::Battlefield,
    );
    {
        let obj = state.objects.get_mut(&panh).unwrap();
        obj.card_types.core_types.push(CoreType::Artifact);
        obj.static_definitions.push(
            StaticDefinition::new(StaticMode::DoubleTriggers {
                cause: TriggerCause::EntersBattlefield {
                    core_types: List::from_vec(vec![CoreType::Artifact, CoreType::Creature]),
                },
            })
            .affected(TargetFilter::Typed(
                TypedFilter::creature().controller(ControllerRef::You),
            )),
        );
    }

    // A creature enters.
    let new_etb = create_object(
        &mut state,
        CardId(9),
        PlayerId(0),
        text("Entering Creature"),
        Zone::Battlefield,
    );
    state
        .objects
        .get_mut(&new_etb)
        .unwrap()
        .card_types
        .core_types
        .push(CoreType::Creature);

    let event = GameEvent::ZoneChanged {
        object_id: new_etb,
        from: Some(Zone::Hand),
        to: Zone::Battlefield,
        record: Rc::new(ZoneChangeRecord {
            name: text("Entering Creature"),
            core_types: List::from_vec(vec![CoreType::Creature]),
            ..ZoneChangeRecord::minimal(new_etb, Some(Zone::Hand), Zone::Battlefield)
        }),
    };

    process_triggers(&mut state, &[event]);
    let observer_triggers = state
        .stack
        .iter()
        .filter(|e| e.source_id == observer_id)
        .count();
    assert_eq!(
        observer_triggers, 2,
        "Panharmonicon must still double the observer's ETB trigger to 2 instances"
    );
}

/// Helper: install a `DoubleTriggers` static on a new battlefield object
/// with the supplied cause, controlled by PlayerId(0).
fn install_doubler(state: &mut GameState, cause: TriggerCause) -> ObjectId {
    let id = create_object(
        state,
        CardId(100),
        PlayerId(0),
        text("Doubler"),
        Zone::Battlefield,
    );
    let obj = state.objects.get_mut(&id).unwrap();
    obj.card_types.core_types.push(CoreType::Creature);
    obj.static_definitions
        .push(StaticDefinition::new(
            StaticMode::DoubleTriggers { cause },
        ));
    id
}

/// CR 603.2d: Isshin (CreatureAttacking cause) doubles attack triggers
/// of a permanent the controller owns.
#[test]
fn isshin_doubles_attack_triggers() {
    let (mut state, observer) = setup_with_observer(TriggerMode::Attacks);
    let _isshin = install_doubler(&mut state, TriggerCause::CreatureAttacking);

    // Ensure observer is a creature so it can attack and its trigger is for ITS attack.
    state
        .objects
        .get_mut(&observer)
        .unwrap()
        .card_types
        .core_types
        .push(CoreType::Creature);

    let event = GameEvent::AttackersDeclared {
        attacker_ids: List::from_vec(vec![observer]),
        defending_player: PlayerId(1),
        attacks: List::from_vec(vec![(
            observer,
            AttackTarget::Player(PlayerId(1)),
        )]),
    };

    process_triggers(&mut state, &[event]);
    let observer_triggers = state
        .stack
        .iter()
        .filter(|e| e.source_id == observer)
        .count();
    assert_eq!(
        observer_triggers, 2,
        "Isshin must double the observer's attack trigger to 2 instances"
    );
}

/// CR 603.2d: Isshin does NOT double ETB triggers — the cause predicate
/// is `CreatureAttacking`, not `EntersBattlefield`.
#[test]
fn isshin_does_not_double_etb_triggers() {
    let (mut state, observer) = setup_with_observer(TriggerMode::ChangesZone);
    edit_trigger(&mut state, observer).destination = Some(Zone::Battlefield);
    let _isshin = install_doubler(&mut state, TriggerCause::CreatureAttacking);

    let new_etb = create_object(
        &mut state,
        CardId(9),
        PlayerId(0),
        text("Entering Creature"),
        Zone::Battlefield,
    );
    state
        .objects
        .get_mut(&new_etb)
        .unwrap()
        .card_types
        .core_types
        .push(CoreType::Creature);

    let event = GameEvent::ZoneChanged {
        object_id: new_etb,
        from: Some(Zone::Hand),
        to: Zone::Battlefield,
        record: Rc::new(ZoneChangeRecord {
            name: text("Entering Creature"),
            core_types: List::from_vec(vec![CoreType::Creature]),
            ..ZoneChangeRecord::minimal(new_etb, Some(Zone::Hand), Zone::Battlefield)
        }),
    };

    process_triggers(&mut state, &[event]);
    let observer_triggers = state
        .stack
        .iter()
        .filter(|e| e.source_id == observer)
        .count();
    assert_eq!(
        observer_triggers, 1,
        "Isshin must NOT double ETB triggers — cause is CreatureAttacking"
    );
}

/// CR 603.2d: Panharmonicon (EntersBattlefield cause) does NOT double
/// attack triggers — the cause predicate filters to ETB only.
#[test]
fn panharmonicon_does_not_double_attack_triggers() {
    let (mut state, observer) = setup_with_observer(TriggerMode::Attacks);
    state
        .objects
        .get_mut(&observer)
        .unwrap()
        .card_types
        .core_types
        .push(CoreType::Creature);
    let _panh = install_doubler(
        &mut state,
        TriggerCause::EntersBattlefield {
            core_types: List::from_vec(vec![CoreType::Artifact, CoreType::Creature]),
        },
    );

    let event = GameEvent::AttackersDeclared {
        attacker_ids: List::from_vec(vec![observer]),
        defending_player: PlayerId(1),
        attacks: List::from_vec(vec![(
            observer,
            AttackTarget::Player(PlayerId(1)),
        )]),
    };

    process_triggers(&mut state, &[event]);
    let observer_triggers = state
        .stack
        .iter()
        .filter(|e| e.source_id == observer)
        .count();
    assert_eq!(
        observer_triggers, 1,
        "Panharmonicon must NOT double attack triggers — cause is EntersBattlefield"
    );
}

/// CR 603.2d: Isshin + Panharmonicon — only Isshin matches an attack
/// event, so the total is 2 (original + 1 from Isshin).
#[test]
fn isshin_and_panharmonicon_only_isshin_matches_attack_event() {
    let (mut state, observer) = setup_with_observer(TriggerMode::Attacks);
    state
        .objects
        .get_mut(&observer)
        .unwrap()
        .card_types
        .core_types
        .push(CoreType::Creature);
    let _isshin = install_doubler(&mut state, TriggerCause::CreatureAttacking);
    let _panh = install_doubler(
        &mut state,
        TriggerCause::EntersBattlefield {
            core_types: List::from_vec(vec![CoreType::Artifact, CoreType::Creature]),
        },
    );

    let event = GameEvent::AttackersDeclared {
        attacker_ids: List::from_vec(vec![observer]),
        defending_player: PlayerId(1),
        attacks: List::from_vec(vec![(
            observer,
            AttackTarget::Player(PlayerId(1)),
        )]),
    };

    process_triggers(&mut state, &[event]);
    let observer_triggers = state
        .stack
        .iter()
        .filter(|e| e.source_id == observer)
        .count();
    assert_eq!(
        observer_triggers, 2,
        "Only Isshin's cause matches the attack event — total should be 2 (original + 1 clone)"
    );
}

/// CR 603.2d + CR 603.6c: Drivnod (CreatureDying cause) doubles a
/// dies-triggered ability of a permanent the controller owns.
#[test]
fn drivnod_doubles_dies_triggers() {
    let (mut state, observer) = setup_with_observer(TriggerMode::ChangesZone);
    edit_trigger(&mut state, observer).destination = Some(Zone::Graveyard);
    let _drivnod = install_doubler(&mut state, TriggerCause::CreatureDying);

    let dying = create_object(
        &mut state,
        CardId(20),
        PlayerId(0),
        text("Dying Creature"),
        Zone::Graveyard,
    );
    state
        .objects
        .get_mut(&dying)
        .unwrap()
        .card_types
        .core_types
        .push(CoreType::Creature);

    let event = GameEvent::ZoneChanged {
        object_id: dying,
        from: Some(Zone::Battlefield),
        to: Zone::Graveyard,
        record: Rc::new(ZoneChangeRecord {
            name: text("Dying Creature"),
            core_types: List::from_vec(vec![CoreType::Creature]),
            ..ZoneChangeRecord::minimal(dying, Some(Zone::Battlefield), Zone::Graveyard)
        }),
    };

    process_triggers(&mut state, &[event]);
    let observer_triggers = state
        .stack
        .iter()
        .filter(|e| e.source_id == observer)
        .count();
    assert_eq!(
        observer_triggers, 2,
        "Drivnod must double the observer's dies trigger to 2 instances"
    );
}

/// CR 603.4 + CR 701.9: Intervening-if "if an opponent discarded a card this
/// turn" evaluates against the per-turn discard counts. Verifies both the
/// positive (opponent discarded → condition met) and negative (no opponent
/// discarded → condition unmet, as well as only-controller-discarded →
/// condition unmet) paths for Tinybones, Trinket Thief.
#[test]
fn intervening_if_opponent_discarded_this_turn_gates_trigger() {
    let mut state = GameState::new_two_player(42);
    let controller = PlayerId(0);
    let opponent = PlayerId(1);

    let condition = TriggerCondition::QuantityComparison {
        lhs: QuantityExpr::Ref {
            qty: QuantityRef::CardsDiscardedThisTurn {
                player: PlayerScope::Opponent {
                    aggregate: AggregateFunction::Sum,
                },
            },
        },
        comparator: Comparator::GE,
        rhs: QuantityExpr::Fixed { value: 1 },
    };

    // No one has discarded yet → condition not met.
    assert!(
        !check_trigger_condition(&state, &condition, controller, None, None),
        "empty discard set must fail the intervening-if"
    );

    // Only the controller discarded → still no opponent discard → condition unmet.
    state.players[controller.0 as usize].cards_discarded_this_turn += 1;
    assert!(
        !check_trigger_condition(&state, &condition, controller, None, None),
        "self-discard must not satisfy 'an opponent discarded a card this turn'"
    );

    // Opponent discarded → condition met.
    state.players[opponent.0 as usize].cards_discarded_this_turn += 1;
    assert!(
        check_trigger_condition(&state, &condition, controller, None, None),
        "opponent-discard must satisfy 'an opponent discarded a card this turn'"
    );
}

#[test]
fn defending_player_life_quantity_reads_attack_event_player_target() {
    let mut state = GameState::new(FormatConfig::commander(), 3, 42);
    let controller = PlayerId(0);
    let attacked_player = PlayerId(1);
    let other_opponent = PlayerId(2);
    let attacker = create_object(
        &mut state,
        CardId(1),
        controller,
        text("Commander"),
        Zone::Battlefield,
    );
    state
        .objects
        .get_mut(&attacker)
        .unwrap()
        .card_types
        .core_types
        .push(CoreType::Creature);

    state.players[0].life = 40;
    state.players[1].life = 35;
    state.players[2].life = 40;

    let condition = TriggerCondition::QuantityComparison {
        lhs: QuantityExpr::Ref {
            qty: QuantityRef::LifeTotal {
                player: PlayerScope::Opponent {
                    aggregate: AggregateFunction::Max,
                },
            },
        },
        comparator: Comparator::LE,
        rhs: QuantityExpr::Ref {
            qty: QuantityRef::LifeTotal {
                player: PlayerScope::DefendingPlayer,
            },
        },
    };
    let event = GameEvent::AttackersDeclared {
        attacker_ids: List::from_vec(vec![attacker]),
        defending_player: attacked_player,
        attacks: List::from_vec(vec![(attacker, AttackTarget::Player(attacked_player))]),
    };

    assert!(
        !check_trigger_condition(&state, &condition, controller, Some(attacker), Some(&event)),
        "another opponent with more life than the attacked player must fail Guild Artisan's intervening-if"
    );

    state
        .players
        .iter_mut()
        .find(|p| p.id == other_opponent)
        .unwrap()
        .life = 35;
    assert!(
        check_trigger_condition(&state, &condition, controller, Some(attacker), Some(&event)),
        "condition must pass when no opponent has more life than the attacked player"
    );
}

/// CR 603.4 + CR 109.3: Valakut-style "if you control at least five other
/// Mountains" must exclude the triggering (newly-entered) Mountain from the
/// count. With exactly 5 Mountains on the battlefield where one of them is
/// the trigger object, the condition is *not* met (only 4 "other" Mountains).
/// With 6 Mountains (5 others + triggering), the condition *is* met.
#[test]
fn intervening_if_other_than_trigger_object_excludes_triggering_mountain() {
    // Helper: create a Mountain on the battlefield under `player`.
    fn make_mountain(state: &mut GameState, player: PlayerId, n: usize) -> ObjectId {
        let id = create_object(
            state,
            CardId(0),
            player,
            text(&format!("Mountain {n}")),
            Zone::Battlefield,
        );
        let obj = state.objects.get_mut(&id).unwrap();
        obj.card_types.core_types.push(CoreType::Land);
        obj.card_types.subtypes.push(text("Mountain"));
        obj.base_card_types = obj.card_types.clone();
        id
    }

    let mut state = GameState::new_two_player(42);
    let controller = PlayerId(0);

    // Valakut source (not a Mountain subtype).
    let valakut_id = create_object(
        &mut state,
        CardId(1),
        controller,
        text("Valakut"),
        Zone::Battlefield,
    );
    {
        let obj = state.objects.get_mut(&valakut_id).unwrap();
        obj.card_types.core_types.push(CoreType::Land);
        obj.base_card_types = obj.card_types.clone();
    }
    // 4 pre-existing Mountains.
    for n in 0..4 {
        make_mountain(&mut state, controller, n);
    }
    // The triggering (newly-entered) Mountain — 5th Mountain total.
    let trigger_id = make_mountain(&mut state, controller, 100);

    let condition = TriggerCondition::QuantityComparison {
        lhs: QuantityExpr::Ref {
            qty: QuantityRef::ObjectCount {
                filter: TargetFilter::Typed(TypedFilter {
                    type_filters: List::from_vec(vec![TypeFilter::Subtype(text("Mountain"))]),
                    controller: Some(ControllerRef::You),
                    properties: List::from_vec(vec![FilterProp::OtherThanTriggerObject]),
                }),
            },
        },
        comparator: Comparator::GE,
        rhs: QuantityExpr::Fixed { value: 5 },
    };

    let event = GameEvent::ZoneChanged {
        object_id: trigger_id,
        from: Some(Zone::Library),
        to: Zone::Battlefield,
        record: Rc::new(ZoneChangeRecord::minimal(
            trigger_id,
            Some(Zone::Library),
            Zone::Battlefield,
        )),
    };

    // 4 other Mountains + 1 triggering = 5 total. Excluding the triggering
    // Mountain leaves 4, which is NOT ≥ 5 — the trigger condition must fail.
    assert!(
        !check_trigger_condition(
            &state,
            &condition,
            controller,
            Some(valakut_id),
            Some(&event)
        ),
        "with only 4 other Mountains, the condition must fail"
    );

    // Add a 5th non-triggering Mountain → 5 others + 1 triggering = 6 total.
    make_mountain(&mut state, controller, 200);
    assert!(
        check_trigger_condition(
            &state,
            &condition,
            controller,
            Some(valakut_id),
            Some(&event)
        ),
        "with 5 other Mountains, the condition must pass"
    );
}
