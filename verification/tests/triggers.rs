//! Triggered abilities, from events to the stack.

use engine::ability::{
    AbilityCost, AbilityDefinition, AbilityKind, AggregateFunction, AttachmentKind,
    AttackTargetFilter, CastManaObjectScope, ContinuousModification, CountScope, Duration, Effect,
    FilterProp, GainLifePlayer, Keyword, ManaContribution, ManaCost, ManaProduction,
    MayTriggerOrigin, MultiTargetSpec, PlayerFilter, PlayerScope, QuantityExpr, QuantityRef,
    ResolvedAbility, SharedQuality, SharedQualityRelation, StaticDefinition, StaticMode,
    SuppressedTriggerEvent, TargetFilter, TriggerCondition, TriggerConstraint, TriggerDefinition,
    TriggerMode, TypeFilter, TypedFilter, WardCost,
};
use engine::events::{GameEvent, ZoneChangeRecord};
use engine::filter::{FilterContext, matches_target_filter};
use engine::functioning::active_trigger_definitions;
use engine::ids::{
    AttackTarget, CardId, Comparator, ControllerRef, CoreType, CounterType, KeywordKind,
    KickerVariant, ManaColor, ManaType, ObjectId, Phase, PlayerId, TargetRef, Zone,
};
use engine::list::{List, Same};
use engine::object::{
    AttachTarget, CardType, ChosenAttribute, Counters, LkiSnapshot, Player, SpellCastRecord,
};
use engine::state::{
    CastHistory, CastingVariant, DamageRecord, GameState, StackEntry, StackEntryKind,
};
use engine::targeting::{build_target_slots, extract_target_filter_from_effect};
use engine::text::Text;
use engine::triggers::process_triggers;
use engine::triggers::collect::{build_triggered_ability, event_is_suppressed_by_static_triggers};
use engine::triggers::conditions::{check_trigger_condition, check_trigger_constraint};
use engine::triggers::keywords::ward_cost_to_ability_cost;
use engine::zones::create_object;
use std::rc::Rc;

fn text(words: &str) -> Text {
    Text::new(words.to_string())
}

/// Triggers as they read on a card.
trait BuildTrigger {
    fn execute(self, ability: AbilityDefinition) -> Self;
    fn valid_card(self, filter: TargetFilter) -> Self;
    fn valid_target(self, filter: TargetFilter) -> Self;
    fn origin(self, zone: Zone) -> Self;
    fn destination(self, zone: Zone) -> Self;
    fn phase(self, phase: Phase) -> Self;
    fn condition(self, condition: TriggerCondition) -> Self;
    fn constraint(self, constraint: TriggerConstraint) -> Self;
    fn description(self, words: Text) -> Self;
    fn trigger_zones(self, zones: Vec<Zone>) -> Self;
}

impl BuildTrigger for TriggerDefinition {
    fn execute(self, ability: AbilityDefinition) -> Self {
        TriggerDefinition { execute: Some(Rc::new(ability)), ..self }
    }
    fn valid_card(self, filter: TargetFilter) -> Self {
        TriggerDefinition { valid_card: Some(filter), ..self }
    }
    fn valid_target(self, filter: TargetFilter) -> Self {
        TriggerDefinition { valid_target: Some(filter), ..self }
    }
    fn origin(self, zone: Zone) -> Self {
        TriggerDefinition { origin: Some(zone), ..self }
    }
    fn destination(self, zone: Zone) -> Self {
        TriggerDefinition { destination: Some(zone), ..self }
    }
    fn phase(self, phase: Phase) -> Self {
        TriggerDefinition { phase: Some(phase), ..self }
    }
    fn condition(self, condition: TriggerCondition) -> Self {
        TriggerDefinition { condition: Some(Rc::new(condition)), ..self }
    }
    fn constraint(self, constraint: TriggerConstraint) -> Self {
        TriggerDefinition { constraint: Some(Rc::new(constraint)), ..self }
    }
    fn description(self, words: Text) -> Self {
        TriggerDefinition { description: Some(words), ..self }
    }
    fn trigger_zones(self, zones: Vec<Zone>) -> Self {
        TriggerDefinition { trigger_zones: List::from_vec(zones), ..self }
    }
}

/// Abilities as they read on a card.
trait BuildAbility {
    fn sub_ability(self, sub: AbilityDefinition) -> Self;
    fn duration(self, duration: Duration) -> Self;
    fn player_scope(self, scope: PlayerFilter) -> Self;
}

impl BuildAbility for AbilityDefinition {
    fn sub_ability(self, sub: AbilityDefinition) -> Self {
        AbilityDefinition { sub_ability: Some(Rc::new(sub)), ..self }
    }
    fn duration(self, duration: Duration) -> Self {
        AbilityDefinition { duration: Some(duration), ..self }
    }
    fn player_scope(self, scope: PlayerFilter) -> Self {
        AbilityDefinition { player_scope: Some(scope), ..self }
    }
}

/// Filters as they read on a card.
trait BuildFilter: Sized {
    fn of(types: Vec<TypeFilter>) -> Self;
    fn with_type(self, kind: TypeFilter) -> Self;
    fn controller(self, who: ControllerRef) -> Self;
    fn properties(self, properties: Vec<FilterProp>) -> Self;
    fn default() -> Self {
        Self::of(Vec::new())
    }
    fn new(kind: TypeFilter) -> Self {
        Self::of(vec![kind])
    }
    fn creature() -> Self {
        Self::new(TypeFilter::Creature)
    }
    fn land() -> Self {
        Self::new(TypeFilter::Land)
    }
    fn permanent() -> Self {
        Self::new(TypeFilter::Permanent)
    }
    fn card() -> Self {
        Self::new(TypeFilter::Card)
    }
    fn subtype(self, words: Text) -> Self {
        self.with_type(TypeFilter::Subtype(words))
    }
}

impl BuildFilter for TypedFilter {
    fn of(types: Vec<TypeFilter>) -> Self {
        TypedFilter {
            type_filters: List::from_vec(types),
            controller: None,
            properties: List::new(),
        }
    }
    fn with_type(mut self, kind: TypeFilter) -> Self {
        self.type_filters.push(kind);
        self
    }
    fn controller(self, who: ControllerRef) -> Self {
        TypedFilter { controller: Some(who), ..self }
    }
    fn properties(self, properties: Vec<FilterProp>) -> Self {
        TypedFilter { properties: List::from_vec(properties), ..self }
    }
}

/// Static abilities as they read on a card.
trait BuildStatic: Sized {
    fn new(mode: StaticMode) -> Self;
    fn continuous() -> Self {
        Self::new(StaticMode::Continuous)
    }
    fn affected(self, filter: TargetFilter) -> Self;
    fn modifications(self, modifications: Vec<ContinuousModification>) -> Self;
}

impl BuildStatic for StaticDefinition {
    fn new(mode: StaticMode) -> Self {
        StaticDefinition { mode, affected: None, condition: None, modifications: List::new() }
    }
    fn affected(self, filter: TargetFilter) -> Self {
        StaticDefinition { affected: Some(filter), ..self }
    }
    fn modifications(self, modifications: Vec<ContinuousModification>) -> Self {
        StaticDefinition { modifications: List::from_vec(modifications), ..self }
    }
}

fn zone_changed_event(
    object_id: ObjectId,
    from: Zone,
    to: Zone,
    core_types: Vec<CoreType>,
    subtypes: Vec<&str>,
) -> GameEvent {
    GameEvent::ZoneChanged {
        object_id,
        from: Some(from),
        to,
        record: Rc::new(ZoneChangeRecord {
            name: text("Test Object"),
            core_types: List::from_vec(core_types),
            subtypes: List::from_vec(subtypes.into_iter().map(text).collect()),
            ..ZoneChangeRecord::minimal(object_id, Some(from), to)
        }),
    }
}

/// CR 111.1 + CR 603.6a: Helper for token creation events — no prior zone.
fn token_zone_changed_event(
    object_id: ObjectId,
    core_types: Vec<CoreType>,
    subtypes: Vec<&str>,
) -> GameEvent {
    GameEvent::ZoneChanged {
        object_id,
        from: None,
        to: Zone::Battlefield,
        record: Rc::new(ZoneChangeRecord {
            name: text("Test Token"),
            core_types: List::from_vec(core_types),
            subtypes: List::from_vec(subtypes.into_iter().map(text).collect()),
            is_token: true,
            ..ZoneChangeRecord::minimal(object_id, None, Zone::Battlefield)
        }),
    }
}

fn make_creature(
    state: &mut GameState,
    player: PlayerId,
    name: &str,
    power: i32,
    toughness: i32,
) -> ObjectId {
    let card = CardId(state.next_object_id);
    let id = create_object(state, card, player, text(name), Zone::Battlefield);
    let obj = state.objects.get_mut(&id).unwrap();
    obj.card_types.core_types.push(CoreType::Creature);
    obj.power = Some(power);
    obj.toughness = Some(toughness);
    id
}

fn set_casts(state: &mut GameState, player: PlayerId, spells: Vec<SpellCastRecord>) {
    state.spells_cast_this_turn_by_player.retain(|history| history.player != player);
    state.spells_cast_this_turn_by_player.push(CastHistory {
        player,
        spells: List::from_vec(spells),
    });
}

fn variant_name(effect: &Effect) -> &'static str {
    match effect {
        Effect::Draw { .. } => "Draw",
        Effect::GainLife { .. } => "GainLife",
        _ => "other",
    }
}

fn setup() -> GameState {
    GameState::new_two_player(42)
}

#[test]
fn exploit_trigger_receives_typed_may_trigger_origin() {
    let mut state = setup();
    let player = PlayerId(0);
    let exploiter = create_object(
        &mut state,
        CardId(1),
        player,
        text("Exploit Creature"),
        Zone::Battlefield,
    );
    {
        let obj = state.objects.get_mut(&exploiter).unwrap();
        obj.keywords.push(Keyword::Exploit);
        obj.card_types.core_types.push(CoreType::Creature);
    }

    process_triggers(
        &mut state,
        &[zone_changed_event(
            exploiter,
            Zone::Stack,
            Zone::Battlefield,
            vec![CoreType::Creature],
            vec![],
        )],
    );

    let Some(StackEntryKind::TriggeredAbility { ability, .. }) =
        state.stack.last().map(|entry| &entry.kind)
    else {
        panic!("expected exploit trigger on stack");
    };
    assert_eq!(
        ability.may_trigger_origin,
        Some(MayTriggerOrigin::Keyword {
            keyword: KeywordKind::Exploit,
        })
    );
}

#[test]
fn ravenous_draw_triggers_when_paid_x_is_five_or_more() {
    let mut state = setup();
    let player = PlayerId(0);
    let ravener = create_object(
        &mut state,
        CardId(1),
        player,
        text("Ravener"),
        Zone::Battlefield,
    );
    {
        let obj = state.objects.get_mut(&ravener).unwrap();
        obj.keywords.push(Keyword::Ravenous);
        obj.cost_x_paid = Some(5);
    }

    process_triggers(
        &mut state,
        &[zone_changed_event(
            ravener,
            Zone::Stack,
            Zone::Battlefield,
            vec![CoreType::Creature],
            vec!["Tyranid"],
        )],
    );

    assert!(state.stack.iter().any(|entry| matches!(
        &entry.kind,
        StackEntryKind::TriggeredAbility { ability, .. }
            if matches!(&*ability.effect, Effect::Draw { .. })
    )));
}

#[test]
fn command_emblem_cast_with_storm_creates_copies_for_prior_spells() {
    let mut state = setup();
    let player = PlayerId(0);
    let opponent = PlayerId(1);
    let emblem = create_object(
        &mut state,
        CardId(1),
        player,
        text("Ral Emblem"),
        Zone::Command,
    );
    {
        let obj = state.objects.get_mut(&emblem).unwrap();
        obj.is_emblem = true;
        obj.static_definitions = List::one(StaticDefinition::new(StaticMode::CastWithKeyword {
            keyword: Keyword::Storm,
        })
        .affected(TargetFilter::Typed(
            TypedFilter::new(TypeFilter::AnyOf(List::from_vec(vec![
                TypeFilter::Instant,
                TypeFilter::Sorcery,
            ])))
            .controller(ControllerRef::You),
        )));
    }

    let spell = create_object(
        &mut state,
        CardId(2),
        player,
        text("Ral Storm Spell"),
        Zone::Stack,
    );
    {
        let obj = state.objects.get_mut(&spell).unwrap();
        obj.card_types.core_types.push(CoreType::Instant);
    }
    state.stack.push(StackEntry {
        id: spell,
        source_id: spell,
        controller: player,
        kind: StackEntryKind::Spell {
            card_id: CardId(2),
            ability: Some(ResolvedAbility::new(
                Effect::Draw {
                    count: QuantityExpr::Fixed { value: 1 },
                    target: TargetFilter::Controller,
                },
                Vec::new(),
                spell,
                player,
            )),
            casting_variant: CastingVariant::Normal,
            actual_mana_spent: 1,
        },
    });

    let prior_record = || SpellCastRecord {
        core_types: List::from_vec(vec![CoreType::Sorcery]),
        supertypes: List::new(),
        subtypes: List::new(),
        keywords: List::new(),
        colors: List::new(),
        mana_value: 1,
        has_x_in_cost: false,
        from_zone: Zone::Hand,
    };
    let current_record = SpellCastRecord {
        core_types: List::from_vec(vec![CoreType::Instant]),
        supertypes: List::new(),
        subtypes: List::new(),
        keywords: List::new(),
        colors: List::new(),
        mana_value: 1,
        has_x_in_cost: false,
        from_zone: Zone::Hand,
    };
    set_casts(&mut state, player, vec![prior_record(), current_record]);
    set_casts(&mut state, opponent, vec![prior_record()]);

    process_triggers(
        &mut state,
        &[GameEvent::SpellCast {
            card_id: CardId(2),
            controller: player,
            object_id: spell,
        }],
    );

    assert!(state.stack.iter().any(|entry| matches!(
        &entry.kind,
        StackEntryKind::TriggeredAbility { ability, .. }
            if matches!(&*ability.effect, Effect::CopySpell { .. })
                && matches!(ability.repeat_for.as_deref(), Some(QuantityExpr::Fixed { value: 2 }))
    )));
}

#[test]
fn apnap_ordering() {
    let mut state = setup();
    state.active_player = PlayerId(0);

    // Create two creatures with triggers on battlefield
    let p0_creature = create_object(
        &mut state,
        CardId(1),
        PlayerId(0),
        text("P0 Creature"),
        Zone::Battlefield,
    );
    {
        let obj = state.objects.get_mut(&p0_creature).unwrap();
        obj.card_types.core_types.push(CoreType::Creature);
        obj.entered_battlefield_turn = Some(1);
        obj.trigger_definitions.push(
            TriggerDefinition::new(TriggerMode::ChangesZone)
                .execute(AbilityDefinition::new(
                    AbilityKind::Database,
                    Effect::Draw {
                        count: QuantityExpr::Fixed { value: 1 },
                        target: TargetFilter::Controller,
                    },
                ))
                .destination(Zone::Battlefield),
        );
    }

    let p1_creature = create_object(
        &mut state,
        CardId(2),
        PlayerId(1),
        text("P1 Creature"),
        Zone::Battlefield,
    );
    {
        let obj = state.objects.get_mut(&p1_creature).unwrap();
        obj.card_types.core_types.push(CoreType::Creature);
        obj.controller = PlayerId(1);
        obj.entered_battlefield_turn = Some(1);
        obj.trigger_definitions.push(
            TriggerDefinition::new(TriggerMode::ChangesZone)
                .execute(AbilityDefinition::new(
                    AbilityKind::Database,
                    Effect::Draw {
                        count: QuantityExpr::Fixed { value: 1 },
                        target: TargetFilter::Controller,
                    },
                ))
                .destination(Zone::Battlefield),
        );
    }

    // Trigger event
    let events = vec![zone_changed_event(
        ObjectId(99),
        Zone::Hand,
        Zone::Battlefield,
        Vec::new(),
        Vec::new(),
    )];

    process_triggers(&mut state, &events);

    // Both triggers should be on the stack
    assert_eq!(state.stack.len(), 2);

    // AP (P0) triggers should be on top of stack (resolve last = placed last)
    // NAP (P1) triggers should be on bottom (resolve first = placed first)
    let top = &state.stack[state.stack.len() - 1];
    let bottom = &state.stack[0];
    assert_eq!(top.controller, PlayerId(0), "AP trigger should be on top");
    assert_eq!(
        bottom.controller,
        PlayerId(1),
        "NAP trigger should be on bottom"
    );
}

#[test]
fn card_matches_filter_creature() {
    let mut state = setup();
    let id = create_object(
        &mut state,
        CardId(1),
        PlayerId(0),
        text("Bear"),
        Zone::Battlefield,
    );
    state
        .objects
        .get_mut(&id)
        .unwrap()
        .card_types
        .core_types
        .push(CoreType::Creature);

    let creature_filter = TargetFilter::Typed(TypedFilter::creature());
    let land_filter = TargetFilter::Typed(TypedFilter::land());
    let ctx = FilterContext::from_source(&state, ObjectId(99));
    assert!(matches_target_filter(&state, id, &creature_filter, &ctx));
    assert!(!matches_target_filter(&state, id, &land_filter, &ctx));
    assert!(matches_target_filter(&state, id, &TargetFilter::Any, &ctx));
}

#[test]
fn card_matches_filter_you_ctrl() {
    let mut state = setup();
    let source = create_object(
        &mut state,
        CardId(1),
        PlayerId(0),
        text("Source"),
        Zone::Battlefield,
    );
    let target = create_object(
        &mut state,
        CardId(2),
        PlayerId(0),
        text("Target"),
        Zone::Battlefield,
    );
    state
        .objects
        .get_mut(&target)
        .unwrap()
        .card_types
        .core_types
        .push(CoreType::Creature);
    let opp_target = create_object(
        &mut state,
        CardId(3),
        PlayerId(1),
        text("Opp Target"),
        Zone::Battlefield,
    );
    state
        .objects
        .get_mut(&opp_target)
        .unwrap()
        .card_types
        .core_types
        .push(CoreType::Creature);

    let creature_you_ctrl =
        TargetFilter::Typed(TypedFilter::creature().controller(ControllerRef::You));
    let ctx = FilterContext::from_source(&state, source);
    assert!(matches_target_filter(
        &state,
        target,
        &creature_you_ctrl,
        &ctx
    ));
    assert!(!matches_target_filter(
        &state,
        opp_target,
        &creature_you_ctrl,
        &ctx
    ));
}

#[test]
fn card_matches_filter_self() {
    let mut state = setup();
    let obj = create_object(
        &mut state,
        CardId(1),
        PlayerId(0),
        text("Card"),
        Zone::Battlefield,
    );
    assert!(matches_target_filter(
        &state,
        obj,
        &TargetFilter::SelfRef,
        &FilterContext::from_source(&state, obj),
    ));
    let other = create_object(
        &mut state,
        CardId(2),
        PlayerId(0),
        text("Other"),
        Zone::Battlefield,
    );
    assert!(!matches_target_filter(
        &state,
        obj,
        &TargetFilter::SelfRef,
        &FilterContext::from_source(&state, other),
    ));
}

// === Integration tests for engine trigger processing ===

#[test]
fn etb_trigger_places_ability_on_stack() {
    let mut state = setup();
    state.active_player = PlayerId(0);

    // Create a permanent with an ETB trigger on battlefield
    let trigger_creature = create_object(
        &mut state,
        CardId(1),
        PlayerId(0),
        text("ETB Creature"),
        Zone::Battlefield,
    );
    {
        let obj = state.objects.get_mut(&trigger_creature).unwrap();
        obj.card_types.core_types.push(CoreType::Creature);
        obj.entered_battlefield_turn = Some(1);
        obj.trigger_definitions.push(
            TriggerDefinition::new(TriggerMode::ChangesZone)
                .execute(AbilityDefinition::new(
                    AbilityKind::Database,
                    Effect::Draw {
                        count: QuantityExpr::Fixed { value: 1 },
                        target: TargetFilter::Controller,
                    },
                ))
                .destination(Zone::Battlefield),
        );
    }

    // Simulate a ZoneChanged event (another creature enters)
    let events = vec![zone_changed_event(
        ObjectId(99),
        Zone::Hand,
        Zone::Battlefield,
        Vec::new(),
        Vec::new(),
    )];

    process_triggers(&mut state, &events);

    // Trigger should be on the stack
    assert_eq!(state.stack.len(), 1);
    let entry = &state.stack[0];
    assert_eq!(entry.source_id, trigger_creature);
    assert_eq!(entry.controller, PlayerId(0));
    match &entry.kind {
        StackEntryKind::TriggeredAbility {
            source_id, ability, ..
        } => {
            assert_eq!(*source_id, trigger_creature);
            assert_eq!(
                variant_name(&ability.effect),
                "Draw"
            );
        }
        _ => panic!("Expected TriggeredAbility on stack"),
    }
}

#[test]
fn multiple_triggers_from_same_event() {
    let mut state = setup();
    state.active_player = PlayerId(0);

    // Create two creatures with ETB triggers, different controllers
    let c1 = create_object(
        &mut state,
        CardId(1),
        PlayerId(0),
        text("P0 ETB"),
        Zone::Battlefield,
    );
    {
        let obj = state.objects.get_mut(&c1).unwrap();
        obj.card_types.core_types.push(CoreType::Creature);
        obj.entered_battlefield_turn = Some(1);
        obj.trigger_definitions.push(
            TriggerDefinition::new(TriggerMode::ChangesZone)
                .execute(AbilityDefinition::new(
                    AbilityKind::Database,
                    Effect::Draw {
                        count: QuantityExpr::Fixed { value: 1 },
                        target: TargetFilter::Controller,
                    },
                ))
                .destination(Zone::Battlefield),
        );
    }

    let c2 = create_object(
        &mut state,
        CardId(2),
        PlayerId(1),
        text("P1 ETB"),
        Zone::Battlefield,
    );
    {
        let obj = state.objects.get_mut(&c2).unwrap();
        obj.card_types.core_types.push(CoreType::Creature);
        obj.controller = PlayerId(1);
        obj.entered_battlefield_turn = Some(1);
        obj.trigger_definitions.push(
            TriggerDefinition::new(TriggerMode::ChangesZone)
                .execute(AbilityDefinition::new(
                    AbilityKind::Database,
                    Effect::Draw {
                        count: QuantityExpr::Fixed { value: 1 },
                        target: TargetFilter::Controller,
                    },
                ))
                .destination(Zone::Battlefield),
        );
    }

    let events = vec![zone_changed_event(
        ObjectId(99),
        Zone::Hand,
        Zone::Battlefield,
        Vec::new(),
        Vec::new(),
    )];

    process_triggers(&mut state, &events);

    assert_eq!(state.stack.len(), 2);
    // APNAP: AP (P0) on top, NAP (P1) on bottom
    assert_eq!(state.stack[state.stack.len() - 1].controller, PlayerId(0));
    assert_eq!(state.stack[0].controller, PlayerId(1));
}

#[test]
fn trigger_with_condition_only_matches_when_met() {
    let mut state = setup();
    state.active_player = PlayerId(0);

    // Create a trigger that only fires for creature zone changes
    let trigger_src = create_object(
        &mut state,
        CardId(1),
        PlayerId(0),
        text("Trigger Source"),
        Zone::Battlefield,
    );
    {
        let obj = state.objects.get_mut(&trigger_src).unwrap();
        obj.card_types.core_types.push(CoreType::Creature);
        obj.entered_battlefield_turn = Some(1);
        obj.trigger_definitions.push(
            TriggerDefinition::new(TriggerMode::ChangesZone)
                .execute(AbilityDefinition::new(
                    AbilityKind::Database,
                    Effect::Draw {
                        count: QuantityExpr::Fixed { value: 1 },
                        target: TargetFilter::Controller,
                    },
                ))
                .valid_card(TargetFilter::Typed(TypedFilter::creature()))
                .destination(Zone::Battlefield),
        );
    }

    // Create a non-creature that enters
    let land = create_object(
        &mut state,
        CardId(2),
        PlayerId(0),
        text("Forest"),
        Zone::Battlefield,
    );
    state
        .objects
        .get_mut(&land)
        .unwrap()
        .card_types
        .core_types
        .push(CoreType::Land);

    // Land enters -- should NOT trigger (valid_card = Creature)
    let events = vec![zone_changed_event(
        land,
        Zone::Hand,
        Zone::Battlefield,
        vec![CoreType::Land],
        Vec::new(),
    )];
    process_triggers(&mut state, &events);
    assert_eq!(
        state.stack.len(),
        0,
        "Land entering should not trigger creature-only ETB"
    );

    // Now a creature enters -- should trigger
    let creature = create_object(
        &mut state,
        CardId(3),
        PlayerId(0),
        text("Bear"),
        Zone::Battlefield,
    );
    state
        .objects
        .get_mut(&creature)
        .unwrap()
        .card_types
        .core_types
        .push(CoreType::Creature);

    let events = vec![zone_changed_event(
        creature,
        Zone::Hand,
        Zone::Battlefield,
        vec![CoreType::Creature],
        Vec::new(),
    )];
    process_triggers(&mut state, &events);
    assert_eq!(
        state.stack.len(),
        1,
        "Creature entering should trigger creature ETB"
    );
}

#[test]
fn zone_change_object_condition_checks_entering_object_not_trigger_source() {
    let mut state = setup();
    let source = create_object(
        &mut state,
        CardId(30),
        PlayerId(0),
        text("Observer"),
        Zone::Battlefield,
    );
    let entering = create_object(
        &mut state,
        CardId(31),
        PlayerId(0),
        text("Countered Entry"),
        Zone::Battlefield,
    );
    state
        .objects
        .get_mut(&entering)
        .unwrap()
        .card_types
        .core_types
        .push(CoreType::Creature);
    state
        .objects
        .get_mut(&entering)
        .unwrap()
        .counters
        .insert(CounterType::Plus1Plus1, 1);

    let condition = TriggerCondition::ZoneChangeObjectMatchesFilter {
        origin: None,
        destination: Zone::Battlefield,
        filter: TargetFilter::Typed(
            TypedFilter::permanent().properties(vec![FilterProp::HasAnyCounter]),
        ),
    };
    let event = zone_changed_event(
        entering,
        Zone::Hand,
        Zone::Battlefield,
        vec![CoreType::Creature],
        Vec::new(),
    );

    assert!(check_trigger_condition(
        &state,
        &condition,
        PlayerId(0),
        Some(source),
        Some(&event),
    ));
}

#[test]
fn zone_change_object_condition_checks_dead_object_snapshot() {
    let mut state = setup();
    let source = create_object(
        &mut state,
        CardId(32),
        PlayerId(0),
        text("Observer"),
        Zone::Battlefield,
    );
    let dead = create_object(
        &mut state,
        CardId(33),
        PlayerId(0),
        text("Countered Dead"),
        Zone::Graveyard,
    );
    let mut counters = Counters::new();
    counters.insert(CounterType::Plus1Plus1, 1);
    state.lki_cache.insert(
        dead,
        LkiSnapshot {
            name: text("Countered Dead"),
            power: Some(2),
            toughness: Some(2),
            mana_value: 2,
            controller: PlayerId(0),
            owner: PlayerId(0),
            card_types: CardType {
                supertypes: List::new(),
                core_types: List::one(CoreType::Creature),
                subtypes: List::new(),
            },
            keywords: List::new(),
            counters,
        },
    );

    let condition = TriggerCondition::ZoneChangeObjectMatchesFilter {
        origin: Some(Zone::Battlefield),
        destination: Zone::Graveyard,
        filter: TargetFilter::Typed(
            TypedFilter::permanent().properties(vec![FilterProp::HasAnyCounter]),
        ),
    };
    let event = zone_changed_event(
        dead,
        Zone::Battlefield,
        Zone::Graveyard,
        vec![CoreType::Creature],
        Vec::new(),
    );

    assert!(check_trigger_condition(
        &state,
        &condition,
        PlayerId(0),
        Some(source),
        Some(&event),
    ));
}

#[test]
fn first_combat_phase_condition_checks_turn_counter() {
    let mut state = setup();
    let condition = TriggerCondition::FirstCombatPhaseOfTurn;

    state.combat_phases_started_this_turn = 0;
    assert!(!check_trigger_condition(
        &state,
        &condition,
        PlayerId(0),
        None,
        None,
    ));

    state.combat_phases_started_this_turn = 1;
    assert!(check_trigger_condition(
        &state,
        &condition,
        PlayerId(0),
        None,
        None,
    ));

    state.combat_phases_started_this_turn = 2;
    assert!(!check_trigger_condition(
        &state,
        &condition,
        PlayerId(0),
        None,
        None,
    ));
}

#[test]
fn prowess_triggers_on_noncreature_spell_cast() {
    let mut state = setup();
    state.active_player = PlayerId(0);

    // Create a creature with Prowess keyword on the battlefield
    let prowess_creature = create_object(
        &mut state,
        CardId(1),
        PlayerId(0),
        text("Monastery Swiftspear"),
        Zone::Battlefield,
    );
    {
        let obj = state.objects.get_mut(&prowess_creature).unwrap();
        obj.card_types.core_types.push(CoreType::Creature);
        obj.entered_battlefield_turn = Some(1);
        obj.keywords.push(Keyword::Prowess);
    }

    // Create a noncreature spell object (Instant) on stack for the SpellCast event
    let spell = create_object(
        &mut state,
        CardId(10),
        PlayerId(0),
        text("Lightning Bolt"),
        Zone::Stack,
    );
    state
        .objects
        .get_mut(&spell)
        .unwrap()
        .card_types
        .core_types
        .push(CoreType::Instant);

    // Simulate SpellCast event by controller
    let events = vec![GameEvent::SpellCast {
        card_id: CardId(10),
        controller: PlayerId(0),
        object_id: spell,
    }];

    process_triggers(&mut state, &events);

    // Prowess should have placed a triggered ability on the stack
    assert_eq!(
        state.stack.len(),
        1,
        "Prowess should trigger on noncreature spell"
    );
}

#[test]
fn prowess_does_not_trigger_on_creature_spell() {
    let mut state = setup();
    state.active_player = PlayerId(0);

    let prowess_creature = create_object(
        &mut state,
        CardId(1),
        PlayerId(0),
        text("Monastery Swiftspear"),
        Zone::Battlefield,
    );
    {
        let obj = state.objects.get_mut(&prowess_creature).unwrap();
        obj.card_types.core_types.push(CoreType::Creature);
        obj.entered_battlefield_turn = Some(1);
        obj.keywords.push(Keyword::Prowess);
    }

    // Create a creature spell
    let creature_spell = create_object(
        &mut state,
        CardId(10),
        PlayerId(0),
        text("Bear Cub"),
        Zone::Stack,
    );
    state
        .objects
        .get_mut(&creature_spell)
        .unwrap()
        .card_types
        .core_types
        .push(CoreType::Creature);

    let events = vec![GameEvent::SpellCast {
        card_id: CardId(10),
        controller: PlayerId(0),
        object_id: creature_spell,
    }];

    process_triggers(&mut state, &events);

    // Prowess should NOT trigger on creature spells
    assert_eq!(
        state.stack.len(),
        0,
        "Prowess should not trigger on creature spell"
    );
}

#[test]
fn prowess_does_not_trigger_on_opponent_spell() {
    let mut state = setup();
    state.active_player = PlayerId(0);

    let prowess_creature = create_object(
        &mut state,
        CardId(1),
        PlayerId(0),
        text("Monastery Swiftspear"),
        Zone::Battlefield,
    );
    {
        let obj = state.objects.get_mut(&prowess_creature).unwrap();
        obj.card_types.core_types.push(CoreType::Creature);
        obj.entered_battlefield_turn = Some(1);
        obj.keywords.push(Keyword::Prowess);
    }

    // Opponent casts a noncreature spell
    let spell = create_object(
        &mut state,
        CardId(10),
        PlayerId(1),
        text("Lightning Bolt"),
        Zone::Stack,
    );
    state
        .objects
        .get_mut(&spell)
        .unwrap()
        .card_types
        .core_types
        .push(CoreType::Instant);

    let events = vec![GameEvent::SpellCast {
        card_id: CardId(10),
        controller: PlayerId(1),
        object_id: spell,
    }];

    process_triggers(&mut state, &events);

    // Prowess should NOT trigger on opponent's spells
    assert_eq!(
        state.stack.len(),
        0,
        "Prowess should not trigger on opponent's spell"
    );
}

#[test]
fn build_triggered_ability_from_typed_execute() {
    let trig_def = TriggerDefinition::new(TriggerMode::ChangesZone).execute(
        AbilityDefinition::new(
            AbilityKind::Database,
            Effect::Draw {
                count: QuantityExpr::Fixed { value: 2 },
                target: TargetFilter::Controller,
            },
        )
        .sub_ability(AbilityDefinition::new(
            AbilityKind::Database,
            Effect::GainLife {
                amount: QuantityExpr::Fixed { value: 3 },
                player: GainLifePlayer::Controller,
            },
        )),
    );

    let state = setup();
    let ability = build_triggered_ability(&state, &trig_def, ObjectId(1), PlayerId(0));
    assert_eq!(
        variant_name(&ability.effect),
        "Draw"
    );
    assert!(ability.sub_ability.is_some());
    let sub = ability.sub_ability.unwrap();
    assert_eq!(
        variant_name(&sub.effect),
        "GainLife"
    );
}

#[test]
fn build_triggered_ability_no_execute() {
    let trig_def = TriggerDefinition::new(TriggerMode::ChangesZone);
    let state = setup();
    let ability = build_triggered_ability(&state, &trig_def, ObjectId(1), PlayerId(0));
    assert!(matches!(&*ability.effect, Effect::Unimplemented { .. }));
}

/// CR 603.2b + CR 102.1: For Phase triggers like "At the beginning of each
/// player's draw step, that player draws an additional card" (Dictate of
/// Kruphix, Kami of the Crescent Moon), the resolved ability must carry
/// `scoped_player = active_player` so `TargetFilter::ScopedPlayer` resolves
/// to the player whose phase is beginning — NOT to the source's controller.
#[test]
fn build_triggered_ability_phase_binds_scoped_player_to_active_player() {
    let mut state = setup();
    // Source controlled by P0, but it's P1's turn — the trigger must draw
    // for P1 (active player), not P0.
    state.active_player = PlayerId(1);

    let trig_def = TriggerDefinition::new(TriggerMode::Phase)
        .phase(Phase::Draw)
        .execute(AbilityDefinition::new(
            AbilityKind::Database,
            Effect::Draw {
                count: QuantityExpr::Fixed { value: 1 },
                target: TargetFilter::ScopedPlayer,
            },
        ));

    let ability = build_triggered_ability(&state, &trig_def, ObjectId(1), PlayerId(0));
    assert_eq!(ability.controller, PlayerId(0));
    assert_eq!(
        ability.scoped_player,
        Some(PlayerId(1)),
        "Phase trigger must bind scoped_player to the active player so 'that player draws' resolves correctly on opponent's turn"
    );
}

/// Non-Phase triggers must NOT have scoped_player auto-bound (preserves
/// the existing convention that ETB/Dies/SpellCast triggers leave
/// scoped_player None and resolve "that player" via event-context refs
/// like `TriggeringPlayer`).
#[test]
fn build_triggered_ability_non_phase_leaves_scoped_player_none() {
    let mut state = setup();
    state.active_player = PlayerId(1);

    let trig_def =
        TriggerDefinition::new(TriggerMode::ChangesZone).execute(AbilityDefinition::new(
            AbilityKind::Database,
            Effect::Draw {
                count: QuantityExpr::Fixed { value: 1 },
                target: TargetFilter::Controller,
            },
        ));

    let ability = build_triggered_ability(&state, &trig_def, ObjectId(1), PlayerId(0));
    assert!(
        ability.scoped_player.is_none(),
        "Non-Phase triggers must not auto-bind scoped_player; they rely on event-context resolution"
    );
}

// === Triggered ability target selection tests ===

#[test]
fn trigger_target_multi_targets_sets_pending() {
    // Trigger with targeting + multiple legal targets -> sets pending_trigger
    let mut state = setup();
    state.active_player = PlayerId(0);

    // Create two opponent creatures as legal targets
    let target1 = create_object(
        &mut state,
        CardId(10),
        PlayerId(1),
        text("Opp Creature 1"),
        Zone::Battlefield,
    );
    state
        .objects
        .get_mut(&target1)
        .unwrap()
        .card_types
        .core_types
        .push(CoreType::Creature);
    state.objects.get_mut(&target1).unwrap().controller = PlayerId(1);

    let target2 = create_object(
        &mut state,
        CardId(11),
        PlayerId(1),
        text("Opp Creature 2"),
        Zone::Battlefield,
    );
    state
        .objects
        .get_mut(&target2)
        .unwrap()
        .card_types
        .core_types
        .push(CoreType::Creature);
    state.objects.get_mut(&target2).unwrap().controller = PlayerId(1);

    // Create a creature with ETB exile trigger targeting a creature opponent controls
    let trigger_creature = create_object(
        &mut state,
        CardId(1),
        PlayerId(0),
        text("Banishing Light"),
        Zone::Battlefield,
    );
    {
        let obj = state.objects.get_mut(&trigger_creature).unwrap();
        obj.card_types.core_types.push(CoreType::Enchantment);
        obj.entered_battlefield_turn = Some(1);
        obj.trigger_definitions.push(
            TriggerDefinition::new(TriggerMode::ChangesZone)
                .execute(
                    AbilityDefinition::new(
                        AbilityKind::Database,
                        Effect::ChangeZone {
                            origin: Some(Zone::Battlefield),
                            destination: Zone::Exile,
                            target: TargetFilter::Typed(
                                TypedFilter::creature().controller(ControllerRef::Opponent),
                            ),
                            owner_library: false,
                            enter_transformed: false,
                            under_your_control: false,
                            enter_tapped: false,
                            enters_attacking: false,
                            up_to: false,
                        },
                    )
                    .duration(Duration::UntilHostLeavesPlay),
                )
                .valid_card(TargetFilter::SelfRef)
                .destination(Zone::Battlefield),
        );
    }

    // Fire an ETB event for the trigger creature
    let events = vec![zone_changed_event(
        trigger_creature,
        Zone::Hand,
        Zone::Battlefield,
        vec![CoreType::Enchantment],
        Vec::new(),
    )];

    process_triggers(&mut state, &events);

    // Multiple legal targets -> should set pending_trigger, NOT push to stack
    assert!(
        state.pending_trigger.is_some(),
        "Should have pending trigger"
    );
    assert_eq!(state.stack.len(), 0, "Should NOT be on stack yet");
    let pending = state.pending_trigger.as_ref().unwrap();
    assert_eq!(pending.source_id, trigger_creature);
    assert_eq!(pending.controller, PlayerId(0));
}

#[test]
fn granted_etb_destroy_other_same_name_skips_source_when_no_other_exists() {
    let mut state = setup();
    state.active_player = PlayerId(0);

    let source = create_object(
        &mut state,
        CardId(1),
        PlayerId(0),
        text("Copied Creature"),
        Zone::Battlefield,
    );
    {
        let obj = state.objects.get_mut(&source).unwrap();
        obj.card_types.core_types.push(CoreType::Creature);
        obj.entered_battlefield_turn = Some(1);
        let mut execute = AbilityDefinition::new(
            AbilityKind::Database,
            Effect::Destroy {
                target: TargetFilter::Typed(
                    TypedFilter::creature()
                        .properties(vec![FilterProp::Another, FilterProp::SameName]),
                ),
                cant_regenerate: false,
            },
        );
        execute.optional_targeting = true;
        execute.multi_target = Some(MultiTargetSpec::fixed(0, 1));
        obj.trigger_definitions.push(
            TriggerDefinition::new(TriggerMode::ChangesZone)
                .execute(execute)
                .valid_card(TargetFilter::SelfRef)
                .destination(Zone::Battlefield),
        );
    }

    let events = vec![zone_changed_event(
        source,
        Zone::Hand,
        Zone::Battlefield,
        vec![CoreType::Creature],
        Vec::new(),
    )];

    process_triggers(&mut state, &events);

    let entry = state.stack.last().expect("optional trigger goes on stack");
    let StackEntryKind::TriggeredAbility { ability, .. } = &entry.kind else {
        panic!("expected triggered ability, got {:?}", entry.kind);
    };
    assert!(
        ability.targets.is_empty(),
        "no other same-name creature exists; source must not be auto-targeted"
    );
}

/// CR 115.1b + CR 609: Pit of Offerings — "exile up to three target cards from graveyards."
/// The trigger carries `multi_target: { min: 0, max: 3 }` on its ChangeZone effect.
/// `build_target_slots` must surface THREE optional slots so target selection prompts
/// the player for 0–3 targets (not exactly 1).
#[test]
fn pit_of_offerings_multi_target_surfaces_three_slots() {
    let mut state = setup();
    state.active_player = PlayerId(0);

    // Populate graveyards with three cards (legal "card in a graveyard" targets).
    let gy1 = create_object(
        &mut state,
        CardId(10),
        PlayerId(0),
        text("GY Card 1"),
        Zone::Graveyard,
    );
    let gy2 = create_object(
        &mut state,
        CardId(11),
        PlayerId(0),
        text("GY Card 2"),
        Zone::Graveyard,
    );
    let gy3 = create_object(
        &mut state,
        CardId(12),
        PlayerId(1),
        text("GY Card 3"),
        Zone::Graveyard,
    );

    let source = create_object(
        &mut state,
        CardId(1),
        PlayerId(0),
        text("Pit of Offerings"),
        Zone::Battlefield,
    );
    {
        let obj = state.objects.get_mut(&source).unwrap();
        obj.card_types.core_types.push(CoreType::Land);
        obj.entered_battlefield_turn = Some(1);
        let mut execute = AbilityDefinition::new(
            AbilityKind::Database,
            Effect::ChangeZone {
                origin: None,
                destination: Zone::Exile,
                target: TargetFilter::Typed(TypedFilter {
                    type_filters: List::from_vec(vec![TypeFilter::Card]),
                    controller: None,
                    properties: List::from_vec(vec![FilterProp::InZone {
                        zone: Zone::Graveyard,
                    }]),
                }),
                owner_library: false,
                enter_transformed: false,
                under_your_control: false,
                enter_tapped: false,
                enters_attacking: false,
                up_to: false,
            },
        );
        execute.multi_target = Some(MultiTargetSpec::fixed(0, 3));
        obj.trigger_definitions.push(
            TriggerDefinition::new(TriggerMode::ChangesZone)
                .execute(execute)
                .valid_card(TargetFilter::SelfRef)
                .destination(Zone::Battlefield),
        );
    }

    let events = vec![zone_changed_event(
        source,
        Zone::Hand,
        Zone::Battlefield,
        vec![CoreType::Land],
        Vec::new(),
    )];

    process_triggers(&mut state, &events);

    // Trigger should be pending (not auto-resolved to 1 target).
    assert!(state.pending_trigger.is_some(), "pending_trigger set");
    let pending = state.pending_trigger.as_ref().unwrap();

    // The crux: build_target_slots must surface THREE slots when multi_target.max == 3,
    // not one. Each slot's legal_targets is the full candidate set (gy1, gy2, gy3).
    let slots = build_target_slots(&state, &pending.ability)
        .expect("slot build");
    assert_eq!(
        slots.len(),
        3,
        "multi_target.max = 3 must produce 3 target slots, got {}",
        slots.len()
    );
    for slot in &slots {
        assert!(slot.optional, "min = 0 → every slot is optional");
        assert_eq!(
            slot.legal_targets.len(),
            3,
            "each slot lists all three graveyard cards"
        );
    }
    let _ = (gy1, gy2, gy3);
}

/// CR 603.3 + CR 115.1b: Nurturing Pixie's ETB uses "up to one target
/// non-Faerie, nonland permanent you control." Multiple legal optional
/// targets must produce a trigger target-selection prompt, not suppress
/// the trigger.
#[test]
fn nurturing_pixie_etb_prompts_for_optional_non_faerie_nonland_target() {
    let mut state = setup();
    state.active_player = PlayerId(0);

    for (card_id, name) in [
        (CardId(10), "Llanowar Elves"),
        (CardId(11), "Badgermole Cub"),
    ] {
        let target = create_object(
            &mut state,
            card_id,
            PlayerId(0),
            text(name),
            Zone::Battlefield,
        );
        let obj = state.objects.get_mut(&target).unwrap();
        obj.card_types.core_types.push(CoreType::Creature);
    }

    let pixie = create_object(
        &mut state,
        CardId(1),
        PlayerId(0),
        text("Nurturing Pixie"),
        Zone::Battlefield,
    );
    {
        let obj = state.objects.get_mut(&pixie).unwrap();
        obj.card_types.core_types.push(CoreType::Creature);
        obj.card_types.subtypes.push(text("Faerie"));
        obj.card_types.subtypes.push(text("Rogue"));
        obj.entered_battlefield_turn = Some(1);
        let mut execute = AbilityDefinition::new(
            AbilityKind::Database,
            Effect::Bounce {
                target: TargetFilter::Typed(
                    TypedFilter::permanent()
                        .with_type(TypeFilter::Non(Rc::new(TypeFilter::Subtype(
                            text("Faerie"),
                        ))))
                        .with_type(TypeFilter::Non(Rc::new(TypeFilter::Land)))
                        .controller(ControllerRef::You),
                ),
                destination: None,
            },
        );
        execute.optional_targeting = true;
        execute.multi_target = Some(MultiTargetSpec::fixed(0, 1));
        obj.trigger_definitions.push(
            TriggerDefinition::new(TriggerMode::ChangesZone)
                .execute(execute)
                .valid_card(TargetFilter::SelfRef)
                .destination(Zone::Battlefield),
        );
    }

    let events = vec![zone_changed_event(
        pixie,
        Zone::Hand,
        Zone::Battlefield,
        vec![CoreType::Creature],
        vec!["Faerie", "Rogue"],
    )];
    process_triggers(&mut state, &events);

    assert!(state.pending_trigger.is_some(), "pending_trigger set");
    let pending = state.pending_trigger.as_ref().unwrap();
    let slots = build_target_slots(&state, &pending.ability)
        .expect("slot build");
    assert_eq!(slots.len(), 1);
    assert!(slots[0].optional);
    assert_eq!(slots[0].legal_targets.len(), 2);
}

#[test]
fn trigger_target_single_target_auto_selects() {
    // Trigger with targeting + exactly 1 legal target -> auto-targets and pushes to stack
    let mut state = setup();
    state.active_player = PlayerId(0);

    // Create only ONE opponent creature as legal target
    let target1 = create_object(
        &mut state,
        CardId(10),
        PlayerId(1),
        text("Opp Creature"),
        Zone::Battlefield,
    );
    state
        .objects
        .get_mut(&target1)
        .unwrap()
        .card_types
        .core_types
        .push(CoreType::Creature);
    state.objects.get_mut(&target1).unwrap().controller = PlayerId(1);

    // Create trigger creature
    let trigger_creature = create_object(
        &mut state,
        CardId(1),
        PlayerId(0),
        text("Banishing Light"),
        Zone::Battlefield,
    );
    {
        let obj = state.objects.get_mut(&trigger_creature).unwrap();
        obj.card_types.core_types.push(CoreType::Enchantment);
        obj.entered_battlefield_turn = Some(1);
        obj.trigger_definitions.push(
            TriggerDefinition::new(TriggerMode::ChangesZone)
                .execute(
                    AbilityDefinition::new(
                        AbilityKind::Database,
                        Effect::ChangeZone {
                            origin: Some(Zone::Battlefield),
                            destination: Zone::Exile,
                            target: TargetFilter::Typed(
                                TypedFilter::creature().controller(ControllerRef::Opponent),
                            ),
                            owner_library: false,
                            enter_transformed: false,
                            under_your_control: false,
                            enter_tapped: false,
                            enters_attacking: false,
                            up_to: false,
                        },
                    )
                    .duration(Duration::UntilHostLeavesPlay),
                )
                .valid_card(TargetFilter::SelfRef)
                .destination(Zone::Battlefield),
        );
    }

    let events = vec![zone_changed_event(
        trigger_creature,
        Zone::Hand,
        Zone::Battlefield,
        vec![CoreType::Enchantment],
        Vec::new(),
    )];

    process_triggers(&mut state, &events);

    // Single legal target -> auto-target and push to stack
    assert!(
        state.pending_trigger.is_none(),
        "Should NOT have pending trigger"
    );
    assert_eq!(state.stack.len(), 1, "Should be on stack");
    let entry = &state.stack[0];
    match &entry.kind {
        StackEntryKind::TriggeredAbility { ability, .. } => {
            assert_eq!(ability.targets.len(), 1);
            assert_eq!(
                *ability.targets.get(0).unwrap(),
                TargetRef::Object(target1)
            );
        }
        _ => panic!("Expected TriggeredAbility on stack"),
    }
}

#[test]
fn trigger_target_zero_targets_skips() {
    // Trigger with targeting + 0 legal targets -> skipped entirely
    let mut state = setup();
    state.active_player = PlayerId(0);

    // No opponent creatures on battlefield (no legal targets)

    let trigger_creature = create_object(
        &mut state,
        CardId(1),
        PlayerId(0),
        text("Banishing Light"),
        Zone::Battlefield,
    );
    {
        let obj = state.objects.get_mut(&trigger_creature).unwrap();
        obj.card_types.core_types.push(CoreType::Enchantment);
        obj.entered_battlefield_turn = Some(1);
        obj.trigger_definitions.push(
            TriggerDefinition::new(TriggerMode::ChangesZone)
                .execute(AbilityDefinition::new(
                    AbilityKind::Database,
                    Effect::ChangeZone {
                        origin: Some(Zone::Battlefield),
                        destination: Zone::Exile,
                        target: TargetFilter::Typed(
                            TypedFilter::creature().controller(ControllerRef::Opponent),
                        ),
                        owner_library: false,
                        enter_transformed: false,
                        under_your_control: false,
                        enter_tapped: false,
                        enters_attacking: false,
                        up_to: false,
                    },
                ))
                .valid_card(TargetFilter::SelfRef)
                .destination(Zone::Battlefield),
        );
    }

    let events = vec![zone_changed_event(
        trigger_creature,
        Zone::Hand,
        Zone::Battlefield,
        vec![CoreType::Enchantment],
        Vec::new(),
    )];

    process_triggers(&mut state, &events);

    // Zero legal targets -> trigger is skipped
    assert!(
        state.pending_trigger.is_none(),
        "Should NOT have pending trigger"
    );
    assert_eq!(state.stack.len(), 0, "Should NOT be on stack");
}

#[test]
fn banishing_light_trigger_skips_without_opponent_nonlands() {
    let mut state = setup();
    state.active_player = PlayerId(0);

    let source = create_object(
        &mut state,
        CardId(1),
        PlayerId(0),
        text("Banishing Light"),
        Zone::Battlefield,
    );
    {
        let obj = state.objects.get_mut(&source).unwrap();
        obj.card_types.core_types.push(CoreType::Enchantment);
        obj.entered_battlefield_turn = Some(1);
        obj.trigger_definitions.push(
            TriggerDefinition::new(TriggerMode::ChangesZone)
                .execute(AbilityDefinition::new(
                    AbilityKind::Database,
                    Effect::ChangeZone {
                        origin: None,
                        destination: Zone::Exile,
                        target: TargetFilter::Typed(
                            TypedFilter::permanent()
                                .controller(ControllerRef::Opponent)
                                .with_type(TypeFilter::Non(Rc::new(TypeFilter::Land))),
                        ),
                        owner_library: false,
                        enter_transformed: false,
                        under_your_control: false,
                        enter_tapped: false,
                        enters_attacking: false,
                        up_to: false,
                    },
                ))
                .valid_card(TargetFilter::SelfRef)
                .destination(Zone::Battlefield),
        );
    }

    let opponent_land = create_object(
        &mut state,
        CardId(2),
        PlayerId(1),
        text("Forest"),
        Zone::Battlefield,
    );
    state
        .objects
        .get_mut(&opponent_land)
        .unwrap()
        .card_types
        .core_types
        .push(CoreType::Land);

    let events = vec![zone_changed_event(
        source,
        Zone::Hand,
        Zone::Battlefield,
        vec![CoreType::Enchantment],
        Vec::new(),
    )];

    process_triggers(&mut state, &events);

    assert!(
        state.pending_trigger.is_none(),
        "Should NOT present trigger target selection"
    );
    assert_eq!(state.stack.len(), 0, "Should skip the ETB trigger");
}

#[test]
fn trigger_no_execute_goes_on_stack_without_targeting() {
    // Trigger with no execute (Effect::Unimplemented) goes on stack without targeting attempt
    let mut state = setup();
    state.active_player = PlayerId(0);

    let trigger_creature = create_object(
        &mut state,
        CardId(1),
        PlayerId(0),
        text("Simple Trigger"),
        Zone::Battlefield,
    );
    {
        let obj = state.objects.get_mut(&trigger_creature).unwrap();
        obj.card_types.core_types.push(CoreType::Creature);
        obj.entered_battlefield_turn = Some(1);
        obj.trigger_definitions.push(
            TriggerDefinition::new(TriggerMode::ChangesZone).destination(Zone::Battlefield),
        );
    }

    let events = vec![zone_changed_event(
        ObjectId(99),
        Zone::Hand,
        Zone::Battlefield,
        Vec::new(),
        Vec::new(),
    )];

    process_triggers(&mut state, &events);

    // Should go on stack as before (Unimplemented ability), no targeting
    assert_eq!(state.stack.len(), 1);
    assert!(state.pending_trigger.is_none());
}

#[test]
fn trigger_no_targeting_effect_goes_on_stack() {
    // Trigger with execute but no targeting (e.g., Draw) goes on stack immediately
    let mut state = setup();
    state.active_player = PlayerId(0);

    let trigger_creature = create_object(
        &mut state,
        CardId(1),
        PlayerId(0),
        text("Draw Trigger"),
        Zone::Battlefield,
    );
    {
        let obj = state.objects.get_mut(&trigger_creature).unwrap();
        obj.card_types.core_types.push(CoreType::Creature);
        obj.entered_battlefield_turn = Some(1);
        obj.trigger_definitions.push(
            TriggerDefinition::new(TriggerMode::ChangesZone)
                .execute(AbilityDefinition::new(
                    AbilityKind::Database,
                    Effect::Draw {
                        count: QuantityExpr::Fixed { value: 1 },
                        target: TargetFilter::Controller,
                    },
                ))
                .destination(Zone::Battlefield),
        );
    }

    let events = vec![zone_changed_event(
        ObjectId(99),
        Zone::Hand,
        Zone::Battlefield,
        Vec::new(),
        Vec::new(),
    )];

    process_triggers(&mut state, &events);

    // No targeting needed -> should be on stack immediately
    assert_eq!(state.stack.len(), 1);
    assert!(state.pending_trigger.is_none());
}

#[test]
fn graveyard_trigger_fires_on_matching_event() {
    let mut state = setup();
    let obj_id = create_object(
        &mut state,
        CardId(1),
        PlayerId(0),
        text("Forsaken Miner"),
        Zone::Graveyard,
    );
    {
        let obj = state.objects.get_mut(&obj_id).unwrap();
        let mut trigger = TriggerDefinition::new(TriggerMode::CommitCrime);
        trigger.trigger_zones = List::from_vec(vec![Zone::Graveyard]);
        trigger.execute = Some(Rc::new(AbilityDefinition::new(
            AbilityKind::Spell,
            Effect::ChangeZone {
                origin: Some(Zone::Graveyard),
                destination: Zone::Battlefield,
                target: TargetFilter::SelfRef,
                owner_library: false,
                enter_transformed: false,
                under_your_control: false,
                enter_tapped: false,
                enters_attacking: false,
                up_to: false,
            },
        )));
        obj.trigger_definitions.push(trigger);
    }

    let events = vec![GameEvent::CrimeCommitted {
        player_id: PlayerId(0),
    }];

    process_triggers(&mut state, &events);

    // Trigger should be on the stack
    assert_eq!(state.stack.len(), 1);
}

#[test]
fn graveyard_trigger_ignored_without_trigger_zone() {
    let mut state = setup();
    let obj_id = create_object(
        &mut state,
        CardId(1),
        PlayerId(0),
        text("No Graveyard Trigger"),
        Zone::Graveyard,
    );
    {
        let obj = state.objects.get_mut(&obj_id).unwrap();
        // trigger_zones is empty — should NOT fire from graveyard
        let trigger = TriggerDefinition::new(TriggerMode::CommitCrime);
        obj.trigger_definitions.push(trigger);
    }

    let events = vec![GameEvent::CrimeCommitted {
        player_id: PlayerId(0),
    }];

    process_triggers(&mut state, &events);

    // Should NOT be on the stack
    assert_eq!(state.stack.len(), 0);
}

#[test]
fn stack_zone_spell_cast_trigger_fires_from_stack() {
    let mut state = setup();
    let spell_id = create_object(
        &mut state,
        CardId(1),
        PlayerId(0),
        text("Sage"),
        Zone::Stack,
    );
    {
        let spell = state.objects.get_mut(&spell_id).unwrap();
        spell.card_types.core_types.push(CoreType::Creature);
        spell.keywords.push(Keyword::Flying);
        let mut trigger = TriggerDefinition::new(TriggerMode::SpellCast);
        trigger.valid_card = Some(TargetFilter::SelfRef);
        trigger.trigger_zones = List::from_vec(vec![Zone::Stack]);
        trigger.condition = Some(Rc::new(TriggerCondition::QuantityComparison {
            lhs: QuantityExpr::Ref {
                qty: QuantityRef::SpellsCastThisTurn {
                    scope: CountScope::Controller,
                    filter: None,
                },
            },
            comparator: Comparator::GE,
            rhs: QuantityExpr::Fixed { value: 2 },
        }));
        trigger.execute = Some(Rc::new(AbilityDefinition::new(
            AbilityKind::Database,
            Effect::Draw {
                count: QuantityExpr::Fixed { value: 1 },
                target: TargetFilter::Controller,
            },
        )));
        spell.trigger_definitions.push(trigger);
    }
    state.stack.push(StackEntry {
        id: spell_id,
        source_id: spell_id,
        controller: PlayerId(0),
        kind: StackEntryKind::Spell {
            card_id: CardId(1),
            ability: Some(ResolvedAbility::new(
                Effect::Draw {
                    count: QuantityExpr::Fixed { value: 1 },
                    target: TargetFilter::Controller,
                },
                vec![],
                spell_id,
                PlayerId(0),
            )),
            casting_variant: CastingVariant::Normal,
            actual_mana_spent: 0,
        },
    });
    set_casts(&mut state, PlayerId(0),
        vec![
            SpellCastRecord {
                core_types: List::from_vec(vec![CoreType::Instant]),
                supertypes: List::new(),
                subtypes: List::new(),
                keywords: List::new(),
                colors: List::from_vec(vec![ManaColor::Blue]),
                mana_value: 1,
                has_x_in_cost: false,
                from_zone: Zone::Hand,
            },
            SpellCastRecord {
                core_types: List::from_vec(vec![CoreType::Creature]),
                supertypes: List::new(),
                subtypes: List::from_vec(vec![text("Bird")]),
                keywords: List::from_vec(vec![Keyword::Flying]),
                colors: List::from_vec(vec![ManaColor::Blue]),
                mana_value: 3,
                has_x_in_cost: false,
                from_zone: Zone::Hand,
            },
        ],);

    let events = vec![GameEvent::SpellCast {
        card_id: CardId(1),
        controller: PlayerId(0),
        object_id: spell_id,
    }];

    process_triggers(&mut state, &events);

    assert_eq!(state.stack.len(), 2);
    assert!(matches!(
        state.stack.last().map(|entry| &entry.kind),
        Some(StackEntryKind::TriggeredAbility { .. })
    ));
}

#[test]
fn enters_trigger_matches_lowercase_with_keyword_filter() {
    let mut state = setup();
    let momo = create_object(
        &mut state,
        CardId(1),
        PlayerId(0),
        text("Momo"),
        Zone::Battlefield,
    );
    {
        let source = state.objects.get_mut(&momo).unwrap();
        source.card_types.core_types.push(CoreType::Creature);
        source.trigger_definitions.push(
            TriggerDefinition::new(TriggerMode::ChangesZone)
                .execute(AbilityDefinition::new(
                    AbilityKind::Database,
                    Effect::Draw {
                        count: QuantityExpr::Fixed { value: 1 },
                        target: TargetFilter::Controller,
                    },
                ))
                .valid_card(TargetFilter::Typed(
                    TypedFilter::creature()
                        .controller(ControllerRef::You)
                        .properties(vec![
                            FilterProp::Another,
                            FilterProp::WithKeyword {
                                value: KeywordKind::Flying,
                            },
                        ]),
                ))
                .destination(Zone::Battlefield),
        );
    }

    let bird = create_object(
        &mut state,
        CardId(2),
        PlayerId(0),
        text("Bird"),
        Zone::Battlefield,
    );
    {
        let creature = state.objects.get_mut(&bird).unwrap();
        creature.card_types.core_types.push(CoreType::Creature);
        creature.keywords.push(Keyword::Flying);
    }

    let events = vec![GameEvent::ZoneChanged {
        object_id: bird,
        from: Some(Zone::Hand),
        to: Zone::Battlefield,
        record: Rc::new(ZoneChangeRecord {
            name: text("Bird"),
            core_types: List::from_vec(vec![CoreType::Creature]),
            keywords: List::from_vec(vec![KeywordKind::Flying]),
            ..ZoneChangeRecord::minimal(bird, Some(Zone::Hand), Zone::Battlefield)
        }),
    }];

    process_triggers(&mut state, &events);

    assert_eq!(state.stack.len(), 1);
}

#[test]
fn deep_cavern_bat_etb_trigger_fires() {
    let mut state = setup();
    state.active_player = PlayerId(0);

    // Create Deep-Cavern Bat on battlefield with RevealHand ETB trigger
    let bat = create_object(
        &mut state,
        CardId(200),
        PlayerId(0),
        text("Deep-Cavern Bat"),
        Zone::Battlefield,
    );
    {
        let obj = state.objects.get_mut(&bat).unwrap();
        obj.card_types.core_types.push(CoreType::Creature);
        obj.entered_battlefield_turn = Some(1);
        obj.trigger_definitions.push(
            TriggerDefinition::new(TriggerMode::ChangesZone)
                .execute(
                    AbilityDefinition::new(
                        AbilityKind::Spell,
                        Effect::RevealHand {
                            target: TargetFilter::Typed(
                                TypedFilter::default().controller(ControllerRef::Opponent),
                            ),
                            card_filter: TargetFilter::Typed(
                                TypedFilter::permanent()
                                    .with_type(TypeFilter::Non(Rc::new(TypeFilter::Land))),
                            ),
                            choice_optional: false,
                        },
                    )
                    .sub_ability(
                        AbilityDefinition::new(
                            AbilityKind::Spell,
                            Effect::ChangeZone {
                                origin: None,
                                destination: Zone::Exile,
                                target: TargetFilter::Any,
                                owner_library: false,
                                enter_transformed: false,
                                under_your_control: false,
                                enter_tapped: false,
                                enters_attacking: false,
                                up_to: false,
                            },
                        )
                        .duration(Duration::UntilHostLeavesPlay),
                    ),
                )
                .valid_card(TargetFilter::SelfRef)
                .destination(Zone::Battlefield)
                .trigger_zones(vec![Zone::Battlefield]),
        );
    }

    // Simulate bat entering battlefield
    let events = vec![zone_changed_event(
        bat,
        Zone::Stack,
        Zone::Battlefield,
        vec![CoreType::Creature],
        Vec::new(),
    )];

    process_triggers(&mut state, &events);

    // In 2-player game, one opponent → auto-target → push to stack
    assert!(
        state.pending_trigger.is_none(),
        "Should auto-target single opponent, not set pending"
    );
    assert_eq!(state.stack.len(), 1, "Trigger should be on the stack");

    let entry = &state.stack[0];
    assert_eq!(entry.source_id, bat);
    match &entry.kind {
        StackEntryKind::TriggeredAbility { ability, .. } => {
            assert_eq!(ability.targets.len(), 1);
            assert_eq!(
                *ability.targets.get(0).unwrap(),
                TargetRef::Player(PlayerId(1))
            );
            assert!(matches!(&*ability.effect, Effect::RevealHand { .. }));
        }
        _ => panic!("Expected TriggeredAbility on stack"),
    }
}

// ── Ward trigger tests ──────────────────────────────────────────────

#[test]
fn ward_trigger_fires_on_opponent_targeting() {
    let mut state = setup();
    state.active_player = PlayerId(0);

    // Create a creature with Ward {2} controlled by player 0
    let creature = create_object(
        &mut state,
        CardId(10),
        PlayerId(0),
        text("Ward Creature"),
        Zone::Battlefield,
    );
    {
        let obj = state.objects.get_mut(&creature).unwrap();
        obj.card_types.core_types.push(CoreType::Creature);
        obj.entered_battlefield_turn = Some(1);
        obj.keywords.push(Keyword::Ward(WardCost::Mana(
            ManaCost::generic(2),
        )));
    }

    // Put an opponent spell on the stack targeting the creature
    let spell = create_object(
        &mut state,
        CardId(20),
        PlayerId(1),
        text("Opponent Spell"),
        Zone::Stack,
    );
    state.stack.push(StackEntry {
        id: spell,
        source_id: spell,
        controller: PlayerId(1),
        kind: StackEntryKind::Spell {
            card_id: CardId(20),
            ability: None,
            casting_variant: CastingVariant::Normal,
            actual_mana_spent: 0,
        },
    });

    // Fire BecomesTarget event
    let events = vec![GameEvent::BecomesTarget {
        object_id: creature,
        source_id: spell,
    }];

    process_triggers(&mut state, &events);

    // Ward trigger should be on the stack
    assert_eq!(
        state.stack.len(),
        2,
        "Ward trigger should be added to stack"
    );
    let ward_entry = &state.stack[1];
    assert_eq!(ward_entry.source_id, creature);
    match &ward_entry.kind {
        StackEntryKind::TriggeredAbility { ability, .. } => {
            // The unless-pay modifier lives on
            // `ResolvedAbility.unless_pay`, not on `Effect::Counter`.
            assert!(matches!(&*ability.effect, Effect::Counter { .. }));
            assert!(
                ability.unless_pay.is_some(),
                "ward should attach an unless_pay modifier"
            );
        }
        _ => panic!("Expected TriggeredAbility on stack"),
    }
}

#[test]
fn ward_trigger_does_not_fire_on_own_targeting() {
    let mut state = setup();
    state.active_player = PlayerId(0);

    let creature = create_object(
        &mut state,
        CardId(10),
        PlayerId(0),
        text("Ward Creature"),
        Zone::Battlefield,
    );
    {
        let obj = state.objects.get_mut(&creature).unwrap();
        obj.card_types.core_types.push(CoreType::Creature);
        obj.entered_battlefield_turn = Some(1);
        obj.keywords.push(Keyword::Ward(WardCost::Mana(
            ManaCost::generic(2),
        )));
    }

    // Own spell targeting the creature
    let spell = create_object(
        &mut state,
        CardId(20),
        PlayerId(0), // Same controller!
        text("Own Spell"),
        Zone::Stack,
    );
    state.stack.push(StackEntry {
        id: spell,
        source_id: spell,
        controller: PlayerId(0),
        kind: StackEntryKind::Spell {
            card_id: CardId(20),
            ability: None,
            casting_variant: CastingVariant::Normal,
            actual_mana_spent: 0,
        },
    });

    let events = vec![GameEvent::BecomesTarget {
        object_id: creature,
        source_id: spell,
    }];

    process_triggers(&mut state, &events);

    // No ward trigger — own spells don't trigger ward
    assert_eq!(
        state.stack.len(),
        1,
        "No ward trigger should fire for own spells"
    );
}

#[test]
fn ward_trigger_does_not_fire_without_ward() {
    let mut state = setup();
    state.active_player = PlayerId(0);

    // Creature WITHOUT ward
    let creature = create_object(
        &mut state,
        CardId(10),
        PlayerId(0),
        text("Normal Creature"),
        Zone::Battlefield,
    );
    {
        let obj = state.objects.get_mut(&creature).unwrap();
        obj.card_types.core_types.push(CoreType::Creature);
        obj.entered_battlefield_turn = Some(1);
    }

    let spell = create_object(
        &mut state,
        CardId(20),
        PlayerId(1),
        text("Opponent Spell"),
        Zone::Stack,
    );
    state.stack.push(StackEntry {
        id: spell,
        source_id: spell,
        controller: PlayerId(1),
        kind: StackEntryKind::Spell {
            card_id: CardId(20),
            ability: None,
            casting_variant: CastingVariant::Normal,
            actual_mana_spent: 0,
        },
    });

    let events = vec![GameEvent::BecomesTarget {
        object_id: creature,
        source_id: spell,
    }];

    process_triggers(&mut state, &events);

    assert_eq!(state.stack.len(), 1, "No ward trigger without ward keyword");
}

#[test]
fn multiple_ward_instances_fire_independently() {
    let mut state = setup();
    state.active_player = PlayerId(0);

    let creature = create_object(
        &mut state,
        CardId(10),
        PlayerId(0),
        text("Double Ward Creature"),
        Zone::Battlefield,
    );
    {
        let obj = state.objects.get_mut(&creature).unwrap();
        obj.card_types.core_types.push(CoreType::Creature);
        obj.entered_battlefield_turn = Some(1);
        // Two ward instances
        obj.keywords.push(Keyword::Ward(WardCost::Mana(
            ManaCost::generic(1),
        )));
        obj.keywords.push(Keyword::Ward(WardCost::PayLife(2)));
    }

    let spell = create_object(
        &mut state,
        CardId(20),
        PlayerId(1),
        text("Opponent Spell"),
        Zone::Stack,
    );
    state.stack.push(StackEntry {
        id: spell,
        source_id: spell,
        controller: PlayerId(1),
        kind: StackEntryKind::Spell {
            card_id: CardId(20),
            ability: None,
            casting_variant: CastingVariant::Normal,
            actual_mana_spent: 0,
        },
    });

    let events = vec![GameEvent::BecomesTarget {
        object_id: creature,
        source_id: spell,
    }];

    process_triggers(&mut state, &events);

    // Two ward triggers + original spell = 3
    assert_eq!(
        state.stack.len(),
        3,
        "Two ward triggers should fire independently"
    );
}

#[test]
fn ward_cost_to_ability_cost_all_variants() {
    // Mana cost
    let mana = WardCost::Mana(ManaCost::generic(3));
    let result = ward_cost_to_ability_cost(&mana);
    assert!(matches!(result, AbilityCost::Mana { cost } if cost == ManaCost::generic(3)));

    // Pay life
    let life = WardCost::PayLife(2);
    let result = ward_cost_to_ability_cost(&life);
    assert!(matches!(
        result,
        AbilityCost::PayLife {
            amount: QuantityExpr::Fixed { value: 2 }
        }
    ));

    // Discard
    let discard = WardCost::DiscardCard;
    let result = ward_cost_to_ability_cost(&discard);
    assert!(matches!(
        result,
        AbilityCost::Discard {
            count: QuantityExpr::Fixed { value: 1 },
            filter: None,
            random: false,
            self_ref: false,
        }
    ));

    // Sacrifice
    let sacrifice = WardCost::Sacrifice {
        count: 1,
        filter: Rc::new(TargetFilter::Any),
    };
    let result = ward_cost_to_ability_cost(&sacrifice);
    assert!(matches!(result, AbilityCost::Sacrifice { count: 1, .. }));

    // Waterbend
    let waterbend = WardCost::Waterbend(ManaCost::generic(4));
    let result = ward_cost_to_ability_cost(&waterbend);
    assert!(matches!(result, AbilityCost::Mana { cost } if cost == ManaCost::generic(4)));
}

#[test]
fn nth_draw_constraint_uses_draw_event_ordinal_not_final_turn_total() {
    let mut state = setup();
    state.players[1].cards_drawn_this_turn = 4;

    let mut trig_def = TriggerDefinition::new(TriggerMode::Drawn);
    trig_def.constraint = Some(Rc::new(TriggerConstraint::NthDrawThisTurn { n: 2 }));

    let controller = PlayerId(0);
    let event = GameEvent::CardDrawn {
        player_id: PlayerId(1),
        object_id: ObjectId(99),
        nth_in_turn: 2,
        nth_in_step: 1,
    };

    // Should fire: this event is the opponent's 2nd draw, even though the
    // batch has already advanced their final turn count to 4.
    assert!(check_trigger_constraint(
        &state,
        &trig_def,
        ObjectId(1),
        0,
        controller,
        &event,
    ));

    // Should NOT fire: this event is a first draw.
    let controller_draw = GameEvent::CardDrawn {
        player_id: PlayerId(0),
        object_id: ObjectId(100),
        nth_in_turn: 1,
        nth_in_step: 1,
    };
    assert!(!check_trigger_constraint(
        &state,
        &trig_def,
        ObjectId(1),
        0,
        controller,
        &controller_draw,
    ));
}

#[test]
fn test_dealt_damage_by_source_condition() {
    let mut state = setup();
    let source = ObjectId(10); // The permanent with the trigger
    let dying_creature = ObjectId(20); // The creature that died

    // Record damage: source dealt 3 damage to dying_creature
    state.damage_dealt_this_turn.push(DamageRecord {
        source_id: source,
        source_controller: PlayerId(0),
        target: TargetRef::Object(dying_creature),
        amount: 3,
        is_combat: false,
    });

    let condition = TriggerCondition::DealtDamageBySourceThisTurn;
    let event = GameEvent::CreatureDestroyed {
        object_id: dying_creature,
    };

    // Matching source + matching dying creature → true
    assert!(check_trigger_condition(
        &state,
        &condition,
        PlayerId(0),
        Some(source),
        Some(&event),
    ));

    // Non-matching source → false
    let wrong_source = ObjectId(99);
    assert!(!check_trigger_condition(
        &state,
        &condition,
        PlayerId(0),
        Some(wrong_source),
        Some(&event),
    ));

    // Non-matching dying creature → false
    let wrong_event = GameEvent::CreatureDestroyed {
        object_id: ObjectId(88),
    };
    assert!(!check_trigger_condition(
        &state,
        &condition,
        PlayerId(0),
        Some(source),
        Some(&wrong_event),
    ));

    // No trigger event → false
    assert!(!check_trigger_condition(
        &state,
        &condition,
        PlayerId(0),
        Some(source),
        None,
    ));
}

// === CR 207.2c: Adamant — ManaColorSpent intervening-if ===

fn setup_with_colored_cast(color: ManaColor, count: u32) -> (GameState, ObjectId) {
    let mut state = setup();
    let src = create_object(
        &mut state,
        CardId(1),
        PlayerId(0),
        text("Adamant Source"),
        Zone::Battlefield,
    );
    let obj = state.objects.get_mut(&src).unwrap();
    obj.colors_spent_to_cast.add(color, count);
    (state, src)
}

#[test]
fn test_adamant_true_when_enough_color_spent() {
    let (state, src) = setup_with_colored_cast(ManaColor::Red, 3);
    let cond = TriggerCondition::ManaColorSpent {
        color: ManaColor::Red,
        minimum: 3,
    };
    assert!(check_trigger_condition(
        &state,
        &cond,
        PlayerId(0),
        Some(src),
        None,
    ));
}

#[test]
fn test_adamant_false_when_not_enough() {
    let (state, src) = setup_with_colored_cast(ManaColor::Red, 3);
    let cond = TriggerCondition::ManaColorSpent {
        color: ManaColor::Red,
        minimum: 4,
    };
    assert!(!check_trigger_condition(
        &state,
        &cond,
        PlayerId(0),
        Some(src),
        None,
    ));
}

#[test]
fn test_adamant_false_when_wrong_color() {
    let (state, src) = setup_with_colored_cast(ManaColor::Green, 3);
    let cond = TriggerCondition::ManaColorSpent {
        color: ManaColor::Red,
        minimum: 3,
    };
    assert!(!check_trigger_condition(
        &state,
        &cond,
        PlayerId(0),
        Some(src),
        None,
    ));
}

#[test]
fn test_adamant_respects_minimum_one() {
    // minimum: 1 with one red spent → true
    let (state, src) = setup_with_colored_cast(ManaColor::Red, 1);
    let cond = TriggerCondition::ManaColorSpent {
        color: ManaColor::Red,
        minimum: 1,
    };
    assert!(check_trigger_condition(
        &state,
        &cond,
        PlayerId(0),
        Some(src),
        None,
    ));

    // minimum: 1 with zero red spent → false
    let (state, src) = setup_with_colored_cast(ManaColor::Green, 5);
    let cond = TriggerCondition::ManaColorSpent {
        color: ManaColor::Red,
        minimum: 1,
    };
    assert!(!check_trigger_condition(
        &state,
        &cond,
        PlayerId(0),
        Some(src),
        None,
    ));
}

// === CR 603.6a + CR 611.2b: "When ~ enters untapped/tapped" ETB gating ===
//
// Gingerbread Cabin class ("When this land enters untapped, create a Food
// token.") relies on `Not { Rc::new(SourceIsTapped) }` evaluating the
// post-replacement-pipeline tapped state of the source at trigger-check
// time: an ETB tapped via the "enters tapped unless ..."
// replacement suppresses the Food trigger, and an ETB untapped fires it.

#[test]
fn source_enters_untapped_fires_when_object_untapped() {
    let mut state = setup();
    let src = create_object(
        &mut state,
        CardId(1),
        PlayerId(0),
        text("Gingerbread Cabin"),
        Zone::Battlefield,
    );
    state.objects.get_mut(&src).unwrap().tapped = false;

    let cond = TriggerCondition::Not {
        condition: Rc::new(TriggerCondition::SourceIsTapped),
    };
    assert!(check_trigger_condition(
        &state,
        &cond,
        PlayerId(0),
        Some(src),
        None,
    ));
}

#[test]
fn source_enters_untapped_suppressed_when_object_tapped() {
    // Simulates the "enters tapped unless you control three or more other
    // Forests" replacement resolving to tapped — the Food trigger must NOT
    // fire.
    let mut state = setup();
    let src = create_object(
        &mut state,
        CardId(1),
        PlayerId(0),
        text("Gingerbread Cabin"),
        Zone::Battlefield,
    );
    state.objects.get_mut(&src).unwrap().tapped = true;

    let cond = TriggerCondition::Not {
        condition: Rc::new(TriggerCondition::SourceIsTapped),
    };
    assert!(!check_trigger_condition(
        &state,
        &cond,
        PlayerId(0),
        Some(src),
        None,
    ));
}

#[test]
fn source_enters_tapped_fires_when_object_tapped() {
    // Amulet of Vigor class: "enters tapped" rider fires only for tapped
    // ETBs.
    let mut state = setup();
    let src = create_object(
        &mut state,
        CardId(1),
        PlayerId(0),
        text("Amulet of Vigor"),
        Zone::Battlefield,
    );
    state.objects.get_mut(&src).unwrap().tapped = true;

    let cond = TriggerCondition::SourceIsTapped;
    assert!(check_trigger_condition(
        &state,
        &cond,
        PlayerId(0),
        Some(src),
        None,
    ));
}

#[test]
fn source_matches_filter_checks_trigger_source_properties() {
    let mut state = setup();
    let src = create_object(
        &mut state,
        CardId(1),
        PlayerId(0),
        text("Dreampod Druid"),
        Zone::Battlefield,
    );
    state
        .objects
        .get_mut(&src)
        .unwrap()
        .card_types
        .core_types
        .push(CoreType::Creature);
    let aura = create_object(
        &mut state,
        CardId(2),
        PlayerId(0),
        text("Test Aura"),
        Zone::Battlefield,
    );
    {
        let aura_obj = state.objects.get_mut(&aura).unwrap();
        aura_obj.card_types.core_types.push(CoreType::Enchantment);
        aura_obj.card_types.subtypes.push(text("Aura"));
        aura_obj.attached_to = Some(AttachTarget::Object(src));
    }
    state.objects.get_mut(&src).unwrap().attachments.push(aura);

    let cond = TriggerCondition::SourceMatchesFilter {
        filter: TargetFilter::Typed(TypedFilter::permanent().properties(vec![
            FilterProp::HasAttachment {
                kind: AttachmentKind::Aura,
                controller: None,
            },
        ])),
    };

    assert!(check_trigger_condition(
        &state,
        &cond,
        PlayerId(0),
        Some(src),
        None,
    ));
}

// === CR 701.27g + CR 708.2: Source-state predicates (Transformed/FaceUp/FaceDown) ===

#[test]
fn source_is_transformed_fires_when_object_transformed() {
    let mut state = setup();
    let src = create_object(
        &mut state,
        CardId(1),
        PlayerId(0),
        text("Test DFC"),
        Zone::Battlefield,
    );
    state.objects.get_mut(&src).unwrap().transformed = true;

    let cond = TriggerCondition::SourceIsTransformed;
    assert!(check_trigger_condition(
        &state,
        &cond,
        PlayerId(0),
        Some(src),
        None,
    ));

    let cond_neg = TriggerCondition::Not {
        condition: Rc::new(TriggerCondition::SourceIsTransformed),
    };
    assert!(!check_trigger_condition(
        &state,
        &cond_neg,
        PlayerId(0),
        Some(src),
        None,
    ));
}

#[test]
fn source_is_transformed_suppressed_when_object_front_face() {
    let mut state = setup();
    let src = create_object(
        &mut state,
        CardId(1),
        PlayerId(0),
        text("Test DFC"),
        Zone::Battlefield,
    );
    state.objects.get_mut(&src).unwrap().transformed = false;

    let cond = TriggerCondition::SourceIsTransformed;
    assert!(!check_trigger_condition(
        &state,
        &cond,
        PlayerId(0),
        Some(src),
        None,
    ));
}

#[test]
fn source_is_face_up_inverse_of_face_down() {
    let mut state = setup();
    let src = create_object(
        &mut state,
        CardId(1),
        PlayerId(0),
        text("Morph Test"),
        Zone::Battlefield,
    );
    // Face-up (default): SourceIsFaceUp fires, SourceIsFaceDown does not.
    state.objects.get_mut(&src).unwrap().face_down = false;
    assert!(check_trigger_condition(
        &state,
        &TriggerCondition::SourceIsFaceUp,
        PlayerId(0),
        Some(src),
        None,
    ));
    assert!(!check_trigger_condition(
        &state,
        &TriggerCondition::SourceIsFaceDown,
        PlayerId(0),
        Some(src),
        None,
    ));

    // Flip to face-down: predicates invert.
    state.objects.get_mut(&src).unwrap().face_down = true;
    assert!(!check_trigger_condition(
        &state,
        &TriggerCondition::SourceIsFaceUp,
        PlayerId(0),
        Some(src),
        None,
    ));
    assert!(check_trigger_condition(
        &state,
        &TriggerCondition::SourceIsFaceDown,
        PlayerId(0),
        Some(src),
        None,
    ));
}

// === CR 603.10a: Leaves-the-battlefield trigger LKI tests ===

#[test]
fn dies_trigger_fires_after_sacrifice_as_cost() {
    // CR 603.10a: "When this creature dies" triggers should fire even when the
    // creature was sacrificed as a cost (already in graveyard when triggers check).

    let mut state = setup();
    state.turn_number = 3;
    state.active_player = PlayerId(0);
    state.priority_player = PlayerId(0);
    state.phase = Phase::PreCombatMain;

    // Create a creature with a "dies" trigger (like Haywire Mite)
    let mite_id = create_object(
        &mut state,
        CardId(100),
        PlayerId(0),
        text("Haywire Mite"),
        Zone::Graveyard, // Already in graveyard (sacrificed as cost)
    );
    {
        let mite = state.objects.get_mut(&mite_id).unwrap();
        mite.controller = PlayerId(0);
        mite.card_types.core_types.push(CoreType::Creature);
        mite.card_types.core_types.push(CoreType::Artifact);
        // Dies trigger: "When this creature dies, you gain 2 life"
        mite.trigger_definitions.push(
            TriggerDefinition::new(TriggerMode::ChangesZone)
                .valid_card(TargetFilter::SelfRef)
                .origin(Zone::Battlefield)
                .destination(Zone::Graveyard)
                .trigger_zones(vec![Zone::Battlefield])
                .execute(AbilityDefinition::new(
                    AbilityKind::Spell,
                    Effect::GainLife {
                        amount: QuantityExpr::Fixed { value: 2 },
                        player: GainLifePlayer::Controller,
                    },
                ))
                .description(text("When this creature dies, you gain 2 life.")),
        );
    }

    // Simulate the ZoneChanged event from sacrifice
    let events = vec![zone_changed_event(
        mite_id,
        Zone::Battlefield,
        Zone::Graveyard,
        vec![CoreType::Creature, CoreType::Artifact],
        Vec::new(),
    )];

    process_triggers(&mut state, &events);

    // The dies trigger should have been pushed to the stack (GainLife has no targeting)
    assert!(
        !state.stack.is_empty(),
        "Dies trigger should fire via LKI even when creature is already in graveyard"
    );
    assert_eq!(state.stack.len(), 1);
    let entry = &state.stack[0];
    assert_eq!(entry.source_id, mite_id);
    if let StackEntryKind::TriggeredAbility { ability, .. } =
        &entry.kind
    {
        assert!(
            matches!(&*ability.effect, Effect::GainLife { .. }),
            "Triggered ability should be GainLife"
        );
    } else {
        panic!("Expected TriggeredAbility on stack");
    }
}

#[test]
fn lki_trigger_does_not_fire_for_non_battlefield_origin() {
    // A creature in graveyard with a battlefield-zone trigger should NOT fire
    // for zone changes that aren't from the battlefield.
    let mut state = setup();
    state.turn_number = 3;
    state.active_player = PlayerId(0);
    state.phase = Phase::PreCombatMain;

    let obj_id = create_object(
        &mut state,
        CardId(200),
        PlayerId(0),
        text("Test Card"),
        Zone::Exile, // In exile, not graveyard
    );
    {
        let obj = state.objects.get_mut(&obj_id).unwrap();
        obj.controller = PlayerId(0);
        obj.card_types.core_types.push(CoreType::Creature);
        obj.trigger_definitions.push(
            TriggerDefinition::new(TriggerMode::ChangesZone)
                .valid_card(TargetFilter::SelfRef)
                .origin(Zone::Battlefield)
                .destination(Zone::Graveyard)
                .trigger_zones(vec![Zone::Battlefield]),
        );
    }

    // Event is from graveyard to exile, not from battlefield
    let events = vec![zone_changed_event(
        obj_id,
        Zone::Graveyard,
        Zone::Exile,
        vec![CoreType::Creature],
        Vec::new(),
    )];

    process_triggers(&mut state, &events);
    assert!(
        state.stack.is_empty(),
        "Trigger should not fire for non-battlefield origin zone changes"
    );
}

#[test]
fn food_leaves_battlefield_trigger_uses_zone_change_snapshot() {
    let mut state = setup();
    state.turn_number = 3;
    state.active_player = PlayerId(0);
    state.priority_player = PlayerId(0);
    state.phase = Phase::PreCombatMain;

    let ygra_id = create_object(
        &mut state,
        CardId(300),
        PlayerId(0),
        text("Ygra, Eater of All"),
        Zone::Battlefield,
    );
    {
        let ygra = state.objects.get_mut(&ygra_id).unwrap();
        ygra.controller = PlayerId(0);
        ygra.card_types.core_types.push(CoreType::Creature);
        ygra.trigger_definitions.push(
            TriggerDefinition::new(TriggerMode::ChangesZone)
                .valid_card(TargetFilter::Typed(
                    TypedFilter::default().with_type(TypeFilter::Subtype(text("Food"))),
                ))
                .origin(Zone::Battlefield)
                .destination(Zone::Graveyard)
                .trigger_zones(vec![Zone::Battlefield])
                .execute(AbilityDefinition::new(
                    AbilityKind::Spell,
                    Effect::PutCounter {
                        counter_type: CounterType::Plus1Plus1,
                        count: QuantityExpr::Fixed { value: 2 },
                        target: TargetFilter::SelfRef,
                    },
                )),
        );
    }

    let events = vec![zone_changed_event(
        ObjectId(301),
        Zone::Battlefield,
        Zone::Graveyard,
        vec![CoreType::Creature, CoreType::Artifact],
        vec!["Food"],
    )];

    process_triggers(&mut state, &events);
    assert_eq!(state.stack.len(), 1, "Ygra trigger should be on the stack");
}

// === extract_target_filter_from_effect private zone tests ===

#[test]
fn extract_target_skips_change_zone_from_hand() {
    // CR 115.1: "Put a land from your hand" doesn't target — selection at resolution.

    let effect = Effect::ChangeZone {
        origin: Some(Zone::Hand),
        destination: Zone::Battlefield,
        target: TargetFilter::Typed(
            TypedFilter::default()
                .with_type(TypeFilter::Land)
                .controller(ControllerRef::You)
                .properties(vec![FilterProp::InZone { zone: Zone::Hand }]),
        ),
        owner_library: false,
        enter_transformed: false,
        under_your_control: false,
        enter_tapped: true,
        enters_attacking: false,
        up_to: false,
    };
    assert!(
        extract_target_filter_from_effect(&effect).is_none(),
        "ChangeZone from Hand should not extract a target (resolution-time selection)"
    );
}

#[test]
fn extract_target_keeps_change_zone_from_battlefield() {
    // "Exile target creature" should still extract the target filter

    let effect = Effect::ChangeZone {
        origin: None,
        destination: Zone::Exile,
        target: TargetFilter::Typed(TypedFilter::creature()),
        owner_library: false,
        enter_transformed: false,
        under_your_control: false,
        enter_tapped: false,
        enters_attacking: false,
        up_to: false,
    };
    assert!(
        extract_target_filter_from_effect(&effect).is_some(),
        "ChangeZone from battlefield should still extract target for stack-time targeting"
    );
}

/// CR 701.21a: Sacrifice does not target — the sacrifice effect handler
/// uses EffectZoneChoice for controller-scoped selection at resolution time.
#[test]
fn extract_target_skips_sacrifice() {
    let effect = Effect::Sacrifice {
        target: TargetFilter::Typed(TypedFilter::creature()),
        count: QuantityExpr::Fixed { value: 1 },
        min_count: 0,
    };
    assert!(
        extract_target_filter_from_effect(&effect).is_none(),
        "Sacrifice should not extract a target filter (resolution-time selection)"
    );
}

#[test]
fn extract_target_skips_copy_token_source_filter() {
    let effect = Effect::CopyTokenOf {
        target: TargetFilter::Nothing,
        source_filter: Some(TargetFilter::Typed(
            TypedFilter::default()
                .controller(ControllerRef::You)
                .properties(vec![FilterProp::Token, FilterProp::EnteredThisTurn]),
        )),
        count: QuantityExpr::Fixed { value: 1 },
    };
    assert!(
        extract_target_filter_from_effect(&effect).is_none(),
        "source-filtered CopyTokenOf chooses sources at resolution, not as targets"
    );
}

// === CR 603.2g + CR 603.6a + CR 700.4: SuppressTriggers integration tests ===

/// Attach a `SuppressTriggers` static to a newly-created permanent in `state.battlefield`.
fn add_suppress_triggers_permanent(
    state: &mut GameState,
    controller: PlayerId,
    source_filter: TargetFilter,
    events: Vec<SuppressedTriggerEvent>,
) -> ObjectId {
    let id = create_object(
        state,
        CardId(0xABCDE),
        controller,
        text("Suppressor"),
        Zone::Battlefield,
    );
    let obj = state.objects.get_mut(&id).unwrap();
    obj.card_types.core_types.push(CoreType::Artifact);
    obj.entered_battlefield_turn = Some(0);
    obj.static_definitions
        .push(StaticDefinition::new(StaticMode::SuppressTriggers {
            source_filter,
            events: List::from_vec(events),
        }));
    id
}

/// Attach an ETB-trigger creature to a newly-created permanent on the battlefield.
/// Trigger is a no-op Draw(1) keyed on "whenever any creature enters".
fn add_etb_observer(state: &mut GameState, controller: PlayerId) -> ObjectId {
    let id = create_object(
        state,
        CardId(0xFADE),
        controller,
        text("ETB Observer"),
        Zone::Battlefield,
    );
    let obj = state.objects.get_mut(&id).unwrap();
    obj.card_types.core_types.push(CoreType::Creature);
    obj.entered_battlefield_turn = Some(0);
    obj.trigger_definitions.push(
        TriggerDefinition::new(TriggerMode::ChangesZone)
            .execute(AbilityDefinition::new(
                AbilityKind::Database,
                Effect::Draw {
                    count: QuantityExpr::Fixed { value: 1 },
                    target: TargetFilter::Controller,
                },
            ))
            .destination(Zone::Battlefield),
    );
    id
}

/// Phase out a permanent (CR 702.26b).
fn phase_out_in_place(state: &mut GameState, id: ObjectId) {
    state.objects.get_mut(&id).unwrap().phased_out = true;
}

#[test]
fn phased_out_torpor_orb_does_not_suppress_etb_triggers() {
    // CR 702.26b + CR 603.2g: a phased-out Torpor Orb must not
    // suppress ETB triggers. Drives `process_triggers` end-to-end — the
    // observer's ETB trigger MUST land on the stack because the Torpor
    // static is gated out by `battlefield_active_statics`.
    let mut state = setup();
    state.active_player = PlayerId(0);

    let torpor_id = add_suppress_triggers_permanent(
        &mut state,
        PlayerId(0),
        TargetFilter::Typed(TypedFilter::creature()),
        vec![SuppressedTriggerEvent::EntersBattlefield],
    );
    phase_out_in_place(&mut state, torpor_id);
    let _observer = add_etb_observer(&mut state, PlayerId(0));

    let events = vec![zone_changed_event(
        ObjectId(0xBEEF),
        Zone::Hand,
        Zone::Battlefield,
        vec![CoreType::Creature],
        Vec::new(),
    )];
    process_triggers(&mut state, &events);

    assert_eq!(
        state.stack.len(),
        1,
        "Phased-out Torpor Orb must not suppress the observer's ETB trigger"
    );
}

#[test]
fn commander_in_command_zone_etb_trigger_does_not_fire() {
    // CR 114.4: a non-emblem object in the command zone has no
    // functioning abilities, so its ETB observer trigger must not fire
    // when some other creature enters. `process_triggers` must reach
    // through `active_trigger_definitions`, which drops command-zone
    // non-emblems.
    let mut state = setup();
    state.active_player = PlayerId(0);

    // Put a triggered "ETB observer" in the command zone rather than on
    // the battlefield. Same trigger shape as `add_etb_observer`.
    let commander_id = create_object(
        &mut state,
        CardId(0xC0FFEE),
        PlayerId(0),
        text("Commander Observer"),
        Zone::Command,
    );
    {
        let obj = state.objects.get_mut(&commander_id).unwrap();
        obj.card_types.core_types.push(CoreType::Creature);
        obj.is_emblem = false;
        obj.trigger_definitions.push(
            TriggerDefinition::new(TriggerMode::ChangesZone)
                .execute(AbilityDefinition::new(
                    AbilityKind::Database,
                    Effect::Draw {
                        count: QuantityExpr::Fixed { value: 1 },
                        target: TargetFilter::Controller,
                    },
                ))
                .destination(Zone::Battlefield),
        );
    }

    let events = vec![zone_changed_event(
        ObjectId(0xBEEF),
        Zone::Hand,
        Zone::Battlefield,
        vec![CoreType::Creature],
        Vec::new(),
    )];
    process_triggers(&mut state, &events);

    assert_eq!(
        state.stack.len(),
        0,
        "A non-emblem command-zone object must not fire its ETB observer trigger"
    );
}

#[test]
fn suppress_triggers_torpor_blocks_creature_etb_observer() {
    // CR 603.2g + CR 603.6a: Torpor Orb-class static on battlefield suppresses
    // an observer's ETB trigger when a CREATURE enters. Soul Warden reading.
    let mut state = setup();
    state.active_player = PlayerId(0);

    // Torpor Orb: source_filter = creatures, events = [EntersBattlefield]
    add_suppress_triggers_permanent(
        &mut state,
        PlayerId(0),
        TargetFilter::Typed(TypedFilter::creature()),
        vec![SuppressedTriggerEvent::EntersBattlefield],
    );
    let _observer = add_etb_observer(&mut state, PlayerId(0));

    // Simulate a creature entering the battlefield.
    let events = vec![zone_changed_event(
        ObjectId(0xBEEF),
        Zone::Hand,
        Zone::Battlefield,
        vec![CoreType::Creature],
        Vec::new(),
    )];

    process_triggers(&mut state, &events);

    assert_eq!(
        state.stack.len(),
        0,
        "Torpor Orb should suppress the observer's ETB trigger for a creature entering"
    );
}

#[test]
fn suppress_triggers_torpor_permits_non_creature_etb() {
    // CR 603.2g + CR 603.6a: Torpor Orb only filters on CREATURES. An artifact
    // entering still fires ETB triggers normally — filter correctness test.
    let mut state = setup();
    state.active_player = PlayerId(0);

    add_suppress_triggers_permanent(
        &mut state,
        PlayerId(0),
        TargetFilter::Typed(TypedFilter::creature()),
        vec![SuppressedTriggerEvent::EntersBattlefield],
    );
    let _observer = add_etb_observer(&mut state, PlayerId(0));

    // Non-creature (artifact) enters.
    let events = vec![zone_changed_event(
        ObjectId(0xBEEF),
        Zone::Hand,
        Zone::Battlefield,
        vec![CoreType::Artifact],
        Vec::new(),
    )];

    process_triggers(&mut state, &events);

    assert_eq!(
        state.stack.len(),
        1,
        "Torpor Orb must NOT suppress ETB triggers caused by a non-creature entering"
    );
}

#[test]
fn suppress_triggers_torpor_permits_dies_event() {
    // CR 700.4: Torpor Orb has `events = [EntersBattlefield]` only — death
    // triggers must still fire. Event-set correctness test.
    let mut state = setup();
    state.active_player = PlayerId(0);

    // Torpor (ETB-only) on battlefield.
    add_suppress_triggers_permanent(
        &mut state,
        PlayerId(0),
        TargetFilter::Typed(TypedFilter::creature()),
        vec![SuppressedTriggerEvent::EntersBattlefield],
    );

    // Create a creature with a "dies" trigger and place it on the battlefield,
    // then simulate its death.
    let dying = create_object(
        &mut state,
        CardId(0xD1E),
        PlayerId(0),
        text("Dying Creature"),
        Zone::Battlefield,
    );
    {
        let obj = state.objects.get_mut(&dying).unwrap();
        obj.card_types.core_types.push(CoreType::Creature);
        obj.entered_battlefield_turn = Some(0);
        obj.trigger_definitions.push(
            TriggerDefinition::new(TriggerMode::ChangesZone)
                .execute(AbilityDefinition::new(
                    AbilityKind::Database,
                    Effect::Draw {
                        count: QuantityExpr::Fixed { value: 1 },
                        target: TargetFilter::Controller,
                    },
                ))
                .origin(Zone::Battlefield)
                .destination(Zone::Graveyard),
        );
    }
    // Move the object out of the battlefield to mirror a real death.
    {
        let obj = state.objects.get_mut(&dying).unwrap();
        obj.zone = Zone::Graveyard;
    }
    state.battlefield.retain(|id| *id != dying);

    let events = vec![zone_changed_event(
        dying,
        Zone::Battlefield,
        Zone::Graveyard,
        vec![CoreType::Creature],
        Vec::new(),
    )];

    process_triggers(&mut state, &events);

    assert_eq!(
        state.stack.len(),
        1,
        "Torpor Orb must NOT suppress dies triggers — only [EntersBattlefield] is in events"
    );
}

#[test]
fn suppress_triggers_hushbringer_blocks_creature_dies() {
    // CR 700.4 + CR 603.2g: Hushbringer-class (`events = [EntersBattlefield, Dies]`)
    // suppresses death triggers on creatures. Event-set building-block test.
    let mut state = setup();
    state.active_player = PlayerId(0);

    add_suppress_triggers_permanent(
        &mut state,
        PlayerId(0),
        TargetFilter::Typed(TypedFilter::creature()),
        vec![
            SuppressedTriggerEvent::EntersBattlefield,
            SuppressedTriggerEvent::Dies,
        ],
    );

    let dying = create_object(
        &mut state,
        CardId(0xD1F),
        PlayerId(0),
        text("Hushed Creature"),
        Zone::Battlefield,
    );
    {
        let obj = state.objects.get_mut(&dying).unwrap();
        obj.card_types.core_types.push(CoreType::Creature);
        obj.entered_battlefield_turn = Some(0);
        obj.trigger_definitions.push(
            TriggerDefinition::new(TriggerMode::ChangesZone)
                .execute(AbilityDefinition::new(
                    AbilityKind::Database,
                    Effect::Draw {
                        count: QuantityExpr::Fixed { value: 1 },
                        target: TargetFilter::Controller,
                    },
                ))
                .origin(Zone::Battlefield)
                .destination(Zone::Graveyard),
        );
    }
    {
        let obj = state.objects.get_mut(&dying).unwrap();
        obj.zone = Zone::Graveyard;
    }
    state.battlefield.retain(|id| *id != dying);

    let events = vec![zone_changed_event(
        dying,
        Zone::Battlefield,
        Zone::Graveyard,
        vec![CoreType::Creature],
        Vec::new(),
    )];

    process_triggers(&mut state, &events);

    assert_eq!(
        state.stack.len(),
        0,
        "Hushbringer-class SuppressTriggers(events=[ETB, Dies]) must suppress creature death triggers"
    );
}

#[test]
fn suppress_triggers_hushbringer_permits_non_creature_dies() {
    // CR 700.4: Hushbringer filters on creatures only — an artifact dying
    // must still fire its triggers. Filter + event-set combination test.
    let mut state = setup();
    state.active_player = PlayerId(0);

    add_suppress_triggers_permanent(
        &mut state,
        PlayerId(0),
        TargetFilter::Typed(TypedFilter::creature()),
        vec![
            SuppressedTriggerEvent::EntersBattlefield,
            SuppressedTriggerEvent::Dies,
        ],
    );

    let dying_artifact = create_object(
        &mut state,
        CardId(0xD20),
        PlayerId(0),
        text("Dying Artifact"),
        Zone::Battlefield,
    );
    {
        let obj = state.objects.get_mut(&dying_artifact).unwrap();
        obj.card_types.core_types.push(CoreType::Artifact);
        obj.entered_battlefield_turn = Some(0);
        obj.trigger_definitions.push(
            TriggerDefinition::new(TriggerMode::ChangesZone)
                .execute(AbilityDefinition::new(
                    AbilityKind::Database,
                    Effect::Draw {
                        count: QuantityExpr::Fixed { value: 1 },
                        target: TargetFilter::Controller,
                    },
                ))
                .origin(Zone::Battlefield)
                .destination(Zone::Graveyard),
        );
    }
    {
        let obj = state.objects.get_mut(&dying_artifact).unwrap();
        obj.zone = Zone::Graveyard;
    }
    state.battlefield.retain(|id| *id != dying_artifact);

    let events = vec![zone_changed_event(
        dying_artifact,
        Zone::Battlefield,
        Zone::Graveyard,
        vec![CoreType::Artifact],
        Vec::new(),
    )];

    process_triggers(&mut state, &events);

    assert_eq!(
        state.stack.len(),
        1,
        "Hushbringer must NOT suppress triggers for non-creature deaths (filter is creature-only)"
    );
}

#[test]
fn suppress_triggers_no_suppressor_means_trigger_fires() {
    // Baseline: without any SuppressTriggers static, creature ETB fires normally.
    let mut state = setup();
    state.active_player = PlayerId(0);
    let _observer = add_etb_observer(&mut state, PlayerId(0));

    let events = vec![zone_changed_event(
        ObjectId(0xBEEF),
        Zone::Hand,
        Zone::Battlefield,
        vec![CoreType::Creature],
        Vec::new(),
    )];

    process_triggers(&mut state, &events);

    assert_eq!(
        state.stack.len(),
        1,
        "Baseline: observer ETB trigger must fire when no suppressor is active"
    );
}

#[test]
fn suppress_triggers_ignores_non_zone_change_events() {
    // CR 603.2g: SuppressTriggers keys on ETB / Dies zone-change events only.
    // Other events (phase changes, spell casts) pass through untouched.
    let mut state = setup();
    state.active_player = PlayerId(0);
    add_suppress_triggers_permanent(
        &mut state,
        PlayerId(0),
        TargetFilter::Typed(TypedFilter::creature()),
        vec![
            SuppressedTriggerEvent::EntersBattlefield,
            SuppressedTriggerEvent::Dies,
        ],
    );

    // A non-zone-change event must not be suppressed.
    let event = GameEvent::PhaseChanged { phase: Phase::Draw };
    assert!(
        !event_is_suppressed_by_static_triggers(&state, &event),
        "PhaseChanged must not be suppressed by SuppressTriggers"
    );
}

#[test]
fn fertile_ground_triggered_mana_ability_skips_stack_and_adds_mana() {
    // CR 605.1b: "Whenever enchanted land is tapped for mana, its controller
    // adds an additional {G}" — a triggered mana ability that must resolve
    // inline (stack-skipped) so the added mana is available immediately.

    let mut state = setup();
    state.active_player = PlayerId(0);

    // Enchanted Forest under P0's control.
    let forest = create_object(
        &mut state,
        CardId(1),
        PlayerId(0),
        text("Forest"),
        Zone::Battlefield,
    );
    state
        .objects
        .get_mut(&forest)
        .unwrap()
        .card_types
        .core_types
        .push(CoreType::Land);

    // Fertile Ground attached to the Forest.
    let aura = create_object(
        &mut state,
        CardId(2),
        PlayerId(0),
        text("Fertile Ground"),
        Zone::Battlefield,
    );
    {
        let obj = state.objects.get_mut(&aura).unwrap();
        obj.card_types.core_types.push(CoreType::Enchantment);
        obj.attached_to = Some(AttachTarget::Object(forest));
        obj.entered_battlefield_turn = Some(1);
        obj.trigger_definitions.push(
            TriggerDefinition::new(TriggerMode::TapsForMana)
                .execute(AbilityDefinition::new(
                    AbilityKind::Database,
                    Effect::Mana {
                        produced: ManaProduction::AnyOneColor {
                            count: QuantityExpr::Fixed { value: 1 },
                            color_options: List::from_vec(vec![
                                ManaColor::White,
                                ManaColor::Blue,
                                ManaColor::Black,
                                ManaColor::Red,
                                ManaColor::Green,
                            ]),
                            contribution: ManaContribution::Additional,
                        },
                        expiry: None,
                        target: None,
                    },
                ))
                .valid_card(TargetFilter::AttachedTo),
        );
    }

    // Simulate tapping the Forest for mana: ManaAdded with tapped_for_mana=true.
    let events = vec![GameEvent::ManaAdded {
        player_id: PlayerId(0),
        mana_type: ManaType::Green,
        source_id: forest,
        tapped_for_mana: true,
    }];

    process_triggers(&mut state, &events);

    // CR 605.3b: Triggered mana ability resolves without using the stack.
    assert_eq!(
        state.stack.len(),
        0,
        "Fertile Ground's mana trigger must not be placed on the stack"
    );
    assert!(
        state.pending_trigger.is_none(),
        "Fertile Ground's mana trigger must not be pending-target"
    );

    // The mana pool now contains one unit. AnyOneColor without color_override
    // resolves to the first color_option by default — the important property
    // for CR 605.1b is that mana was added immediately.
    let pool_size: usize = state
        .players
        .iter()
        .find(|p| p.id == PlayerId(0))
        .map(|p| p.mana_pool.len())
        .unwrap_or(0);
    assert_eq!(
        pool_size, 1,
        "Fertile Ground must add one mana to the pool inline"
    );
}

#[test]
fn fertile_ground_cross_controller_routes_mana_to_lands_controller() {
    // CR 109.5 + CR 605.1b: when P1 controls Fertile Ground
    // attached to P0's Forest, tapping that Forest for mana must route
    // the bonus mana to P0 (the land's controller / "its controller"),
    // not to P1 (the aura's controller). `player_scope: TriggeringPlayer`
    // on the executed mana ability rebinds the controller to the ManaAdded
    // event's player_id.

    let mut state = setup();
    state.active_player = PlayerId(0);

    // P0 controls a Forest.
    let forest = create_object(
        &mut state,
        CardId(1),
        PlayerId(0),
        text("Forest"),
        Zone::Battlefield,
    );
    state
        .objects
        .get_mut(&forest)
        .unwrap()
        .card_types
        .core_types
        .push(CoreType::Land);

    // P1 controls a Fertile Ground attached to P0's Forest.
    let aura = create_object(
        &mut state,
        CardId(2),
        PlayerId(1),
        text("Fertile Ground"),
        Zone::Battlefield,
    );
    {
        let obj = state.objects.get_mut(&aura).unwrap();
        obj.card_types.core_types.push(CoreType::Enchantment);
        obj.attached_to = Some(AttachTarget::Object(forest));
        obj.entered_battlefield_turn = Some(1);
        // player_scope on the executed
        // mana ability rebinds resolution controller to TriggeringPlayer.
        let execute = AbilityDefinition::new(
            AbilityKind::Database,
            Effect::Mana {
                produced: ManaProduction::AnyOneColor {
                    count: QuantityExpr::Fixed { value: 1 },
                    color_options: List::from_vec(vec![
                        ManaColor::White,
                        ManaColor::Blue,
                        ManaColor::Black,
                        ManaColor::Red,
                        ManaColor::Green,
                    ]),
                    contribution: ManaContribution::Additional,
                },
                expiry: None,
                target: None,
            },
        )
        .player_scope(PlayerFilter::TriggeringPlayer);
        obj.trigger_definitions.push(
            TriggerDefinition::new(TriggerMode::TapsForMana)
                .execute(execute)
                .valid_card(TargetFilter::AttachedTo),
        );
    }

    // P0 taps their Forest for mana.
    let events = vec![GameEvent::ManaAdded {
        player_id: PlayerId(0),
        mana_type: ManaType::Green,
        source_id: forest,
        tapped_for_mana: true,
    }];

    process_triggers(&mut state, &events);

    assert_eq!(state.stack.len(), 0, "Mana trigger must resolve inline");
    let p0_pool = state
        .players
        .iter()
        .find(|p| p.id == PlayerId(0))
        .map(|p| p.mana_pool.len())
        .unwrap_or(0);
    let p1_pool = state
        .players
        .iter()
        .find(|p| p.id == PlayerId(1))
        .map(|p| p.mana_pool.len())
        .unwrap_or(0);
    assert_eq!(
        p0_pool, 1,
        "Bonus mana must go to the land's controller (P0), not the aura's controller (P1)"
    );
    assert_eq!(
        p1_pool, 0,
        "Aura's controller (P1) must not gain mana from P0 tapping P0's land"
    );
}

#[test]
fn utopia_sprawl_triggered_mana_ability_resolves_chosen_color_inline() {
    // CR 603.6d + CR 605.1b: Utopia Sprawl's "As this Aura enters, choose a color"
    // replacement stores a ChosenAttribute::Color on the aura; tapping the
    // enchanted Forest then fires a triggered mana ability that resolves
    // inline, adding one mana of the chosen color to the controller's pool.

    let mut state = setup();
    state.active_player = PlayerId(0);

    let forest = create_object(
        &mut state,
        CardId(1),
        PlayerId(0),
        text("Forest"),
        Zone::Battlefield,
    );
    state
        .objects
        .get_mut(&forest)
        .unwrap()
        .card_types
        .core_types
        .push(CoreType::Land);

    let sprawl = create_object(
        &mut state,
        CardId(2),
        PlayerId(0),
        text("Utopia Sprawl"),
        Zone::Battlefield,
    );
    {
        let obj = state.objects.get_mut(&sprawl).unwrap();
        obj.card_types.core_types.push(CoreType::Enchantment);
        obj.attached_to = Some(AttachTarget::Object(forest));
        obj.entered_battlefield_turn = Some(1);
        // CR 603.6d: The chosen color landed on the aura during ETB (Red in this test).
        obj.chosen_attributes
            .push(ChosenAttribute::Color(ManaColor::Red));
        obj.trigger_definitions.push(
            TriggerDefinition::new(TriggerMode::TapsForMana)
                .execute(AbilityDefinition::new(
                    AbilityKind::Database,
                    Effect::Mana {
                        produced: ManaProduction::ChosenColor {
                            count: QuantityExpr::Fixed { value: 1 },
                            contribution: ManaContribution::Additional,
                        },
                        expiry: None,
                        target: None,
                    },
                ))
                .valid_card(TargetFilter::AttachedTo),
        );
    }

    // Tap the Forest for mana — emits ManaAdded{Green, tapped_for_mana=true}.
    let events = vec![GameEvent::ManaAdded {
        player_id: PlayerId(0),
        mana_type: ManaType::Green,
        source_id: forest,
        tapped_for_mana: true,
    }];

    process_triggers(&mut state, &events);

    // CR 605.3b: Stack is empty — the triggered mana ability resolved inline.
    assert_eq!(
        state.stack.len(),
        0,
        "Utopia Sprawl's mana trigger must not be placed on the stack"
    );
    assert!(state.pending_trigger.is_none());

    // The pool now has the chosen-color Red mana added by the trigger.
    let player = state.players.iter().find(|p| p.id == PlayerId(0)).unwrap();
    assert_eq!(
        player.mana_pool.to_vec().iter().filter(|unit| unit.mana_type == ManaType::Red).count(),
        1,
        "Utopia Sprawl must add one Red mana (the chosen color) to the pool"
    );
}

// -----------------------------------------------------------------------
// CR 505.1: OnlyDuringYourMainPhase constraint runtime enforcement.
// Fires only when the active player is the trigger controller AND the
// phase is precombat or postcombat main.
// -----------------------------------------------------------------------

#[test]
fn only_during_your_main_phase_fires_in_precombat_main() {
    let mut state = setup();
    state.active_player = PlayerId(0);
    state.phase = Phase::PreCombatMain;

    let mut trig_def = TriggerDefinition::new(TriggerMode::SaddlesOrCrews);
    trig_def.constraint = Some(Rc::new(TriggerConstraint::OnlyDuringYourMainPhase));

    let event = GameEvent::VehicleCrewed {
        vehicle_id: ObjectId(42),
        creatures: List::from_vec(vec![ObjectId(5)]),
    };
    assert!(check_trigger_constraint(
        &state,
        &trig_def,
        ObjectId(42),
        0,
        PlayerId(0),
        &event,
    ));
}

#[test]
fn only_during_your_main_phase_fires_in_postcombat_main() {
    let mut state = setup();
    state.active_player = PlayerId(0);
    state.phase = Phase::PostCombatMain;

    let mut trig_def = TriggerDefinition::new(TriggerMode::SaddlesOrCrews);
    trig_def.constraint = Some(Rc::new(TriggerConstraint::OnlyDuringYourMainPhase));

    let event = GameEvent::VehicleCrewed {
        vehicle_id: ObjectId(42),
        creatures: List::from_vec(vec![ObjectId(5)]),
    };
    assert!(check_trigger_constraint(
        &state,
        &trig_def,
        ObjectId(42),
        0,
        PlayerId(0),
        &event,
    ));
}

#[test]
fn only_during_your_main_phase_blocks_outside_main_phase() {
    let mut state = setup();
    state.active_player = PlayerId(0);
    state.phase = Phase::Upkeep;

    let mut trig_def = TriggerDefinition::new(TriggerMode::SaddlesOrCrews);
    trig_def.constraint = Some(Rc::new(TriggerConstraint::OnlyDuringYourMainPhase));

    let event = GameEvent::VehicleCrewed {
        vehicle_id: ObjectId(42),
        creatures: List::from_vec(vec![ObjectId(5)]),
    };
    assert!(!check_trigger_constraint(
        &state,
        &trig_def,
        ObjectId(42),
        0,
        PlayerId(0),
        &event,
    ));
}

#[test]
fn only_during_your_main_phase_blocks_on_opponents_turn() {
    // Even during Player 1's precombat main, Player 0's trigger must NOT fire —
    // "your main phase" is scoped to the trigger's controller.
    let mut state = setup();
    state.active_player = PlayerId(1);
    state.phase = Phase::PreCombatMain;

    let mut trig_def = TriggerDefinition::new(TriggerMode::SaddlesOrCrews);
    trig_def.constraint = Some(Rc::new(TriggerConstraint::OnlyDuringYourMainPhase));

    let event = GameEvent::VehicleCrewed {
        vehicle_id: ObjectId(42),
        creatures: List::from_vec(vec![ObjectId(5)]),
    };
    assert!(!check_trigger_constraint(
        &state,
        &trig_def,
        ObjectId(42),
        0,
        PlayerId(0),
        &event,
    ));
}

/// CR 601.2h + CR 603.4: Increment intervening-if gates the counter-placement
/// trigger on the amount of mana spent to cast the triggering spell exceeding
/// either the source creature's power or its toughness. Covers both Hungry Graffalon (P3/T4) and Topiary Lecturer
/// (P1/T2) shapes.
#[test]
fn increment_intervening_if_gates_on_mana_spent_vs_self_pt() {
    let mut state = setup();

    let source = create_object(
        &mut state,
        CardId(1),
        PlayerId(0),
        text("Hungry Graffalon"),
        Zone::Battlefield,
    );
    {
        let obj = state.objects.get_mut(&source).unwrap();
        obj.card_types.core_types.push(CoreType::Creature);
        obj.power = Some(3);
        obj.toughness = Some(4);
    }

    let spell = create_object(
        &mut state,
        CardId(2),
        PlayerId(0),
        text("Test Spell"),
        Zone::Stack,
    );

    let condition = TriggerCondition::Or {
        conditions: List::from_vec(vec![
            TriggerCondition::QuantityComparison {
                lhs: QuantityExpr::Ref {
                    qty: QuantityRef::ManaSpentToCast {
                        scope: CastManaObjectScope::TriggeringSpell,
                    },
                },
                comparator: Comparator::GT,
                rhs: QuantityExpr::Ref {
                    qty: QuantityRef::SourcePower,
                },
            },
            TriggerCondition::QuantityComparison {
                lhs: QuantityExpr::Ref {
                    qty: QuantityRef::ManaSpentToCast {
                        scope: CastManaObjectScope::TriggeringSpell,
                    },
                },
                comparator: Comparator::GT,
                rhs: QuantityExpr::Ref {
                    qty: QuantityRef::SourceToughness,
                },
            },
        ]),
    };

    let event = GameEvent::SpellCast {
        card_id: CardId(2),
        controller: PlayerId(0),
        object_id: spell,
    };

    // 2 mana spent: 2 > 3 false, 2 > 4 false — trigger does NOT fire.
    state
        .objects
        .get_mut(&spell)
        .unwrap()
        .mana_spent_to_cast_amount = 2;
    assert!(
        !check_trigger_condition(&state, &condition, PlayerId(0), Some(source), Some(&event)),
        "Increment must not fire when mana spent (2) <= both power (3) and toughness (4)"
    );

    // 4 mana spent: 4 > 3 true — trigger fires even though 4 > 4 is false.
    state
        .objects
        .get_mut(&spell)
        .unwrap()
        .mana_spent_to_cast_amount = 4;
    assert!(
        check_trigger_condition(&state, &condition, PlayerId(0), Some(source), Some(&event)),
        "Increment must fire when mana spent (4) > power (3), regardless of toughness"
    );

    // 5 mana spent: 5 > 3 and 5 > 4 — fires.
    state
        .objects
        .get_mut(&spell)
        .unwrap()
        .mana_spent_to_cast_amount = 5;
    assert!(
        check_trigger_condition(&state, &condition, PlayerId(0), Some(source), Some(&event)),
        "Increment must fire when mana spent (5) exceeds both power and toughness"
    );

    // Topiary Lecturer shape — P1/T2.
    {
        let obj = state.objects.get_mut(&source).unwrap();
        obj.power = Some(1);
        obj.toughness = Some(2);
    }
    state
        .objects
        .get_mut(&spell)
        .unwrap()
        .mana_spent_to_cast_amount = 2;
    assert!(
        check_trigger_condition(&state, &condition, PlayerId(0), Some(source), Some(&event)),
        "Topiary Lecturer: 2 mana spent > power (1) must fire Increment"
    );

    state
        .objects
        .get_mut(&spell)
        .unwrap()
        .mana_spent_to_cast_amount = 1;
    assert!(
        !check_trigger_condition(&state, &condition, PlayerId(0), Some(source), Some(&event)),
        "Topiary Lecturer: 1 mana spent must not exceed power (1) or toughness (2)"
    );
}

/// CR 107.3 + CR 202.1 + CR 603.2c: "Whenever you cast your first spell with
/// {X} in its mana cost each turn" — constraint check must:
/// - fire on the first qualifying spell in `spells_cast_this_turn_by_player`
///   (count == 1 where the filter matches)
/// - NOT fire when the current cast is a non-qualifying spell (filter
///   mismatches), even if it's the first spell overall
/// - NOT fire on the second qualifying cast this turn.
#[test]
fn first_spell_with_x_constraint_fires_once_per_turn() {
    let mut state = setup();
    let source = create_object(
        &mut state,
        CardId(99),
        PlayerId(0),
        text("Nev"),
        Zone::Battlefield,
    );
    let trig_def = {
        let mut d = TriggerDefinition::new(TriggerMode::SpellCast);
        d.constraint = Some(Rc::new(TriggerConstraint::NthSpellThisTurn {
            n: 1,
            filter: Some(TargetFilter::Typed(
                TypedFilter::default().properties(vec![FilterProp::HasXInManaCost]),
            )),
        }));
        d
    };

    let spell_event = GameEvent::SpellCast {
        card_id: CardId(1),
        controller: PlayerId(0),
        object_id: ObjectId(1000),
    };

    // Case A: first qualifying spell — record has exactly one X-cost cast.
    set_casts(&mut state, PlayerId(0),
        vec![SpellCastRecord {
            core_types: List::from_vec(vec![CoreType::Sorcery]),
            supertypes: List::new(),
            subtypes: List::new(),
            keywords: List::new(),
            colors: List::new(),
            mana_value: 3,
            has_x_in_cost: true,
            from_zone: Zone::Hand,
        }],);
    assert!(
        check_trigger_constraint(&state, &trig_def, source, 0, PlayerId(0), &spell_event),
        "first qualifying X-spell must fire"
    );

    // Case B: first cast is non-qualifying (no X in cost). Constraint must NOT fire.
    set_casts(&mut state, PlayerId(0),
        vec![SpellCastRecord {
            core_types: List::from_vec(vec![CoreType::Instant]),
            supertypes: List::new(),
            subtypes: List::new(),
            keywords: List::new(),
            colors: List::new(),
            mana_value: 1,
            has_x_in_cost: false,
            from_zone: Zone::Hand,
        }],);
    assert!(
        !check_trigger_constraint(&state, &trig_def, source, 0, PlayerId(0), &spell_event),
        "non-qualifying spell (no X) must NOT match the first-X-spell constraint"
    );

    // Case C: second qualifying spell (filter count == 2). Must NOT fire.
    set_casts(&mut state, PlayerId(0),
        vec![
            SpellCastRecord {
                core_types: List::from_vec(vec![CoreType::Sorcery]),
                supertypes: List::new(),
                subtypes: List::new(),
                keywords: List::new(),
                colors: List::new(),
                mana_value: 2,
                has_x_in_cost: true,
                from_zone: Zone::Hand,
            },
            SpellCastRecord {
                core_types: List::from_vec(vec![CoreType::Sorcery]),
                supertypes: List::new(),
                subtypes: List::new(),
                keywords: List::new(),
                colors: List::new(),
                mana_value: 4,
                has_x_in_cost: true,
                from_zone: Zone::Hand,
            },
        ],);
    assert!(
        !check_trigger_constraint(&state, &trig_def, source, 0, PlayerId(0), &spell_event),
        "second X-spell this turn must NOT fire the first-X-spell trigger"
    );

    // Case D: intervening non-X spell does NOT reset the count — second X-spell still fails.
    set_casts(&mut state, PlayerId(0),
        vec![
            SpellCastRecord {
                core_types: List::from_vec(vec![CoreType::Sorcery]),
                supertypes: List::new(),
                subtypes: List::new(),
                keywords: List::new(),
                colors: List::new(),
                mana_value: 2,
                has_x_in_cost: true,
                from_zone: Zone::Hand,
            },
            SpellCastRecord {
                core_types: List::from_vec(vec![CoreType::Instant]),
                supertypes: List::new(),
                subtypes: List::new(),
                keywords: List::new(),
                colors: List::new(),
                mana_value: 1,
                has_x_in_cost: false,
                from_zone: Zone::Hand,
            },
            SpellCastRecord {
                core_types: List::from_vec(vec![CoreType::Sorcery]),
                supertypes: List::new(),
                subtypes: List::new(),
                keywords: List::new(),
                colors: List::new(),
                mana_value: 4,
                has_x_in_cost: true,
                from_zone: Zone::Hand,
            },
        ],);
    assert!(
        !check_trigger_constraint(&state, &trig_def, source, 0, PlayerId(0), &spell_event),
        "intervening non-X spell must not reset qualifying count"
    );
}

#[test]
fn nth_spell_you_trigger_matches_source_controller_spell_only() {
    fn spell_record() -> SpellCastRecord {
        SpellCastRecord {
            core_types: List::from_vec(vec![CoreType::Instant]),
            supertypes: List::new(),
            subtypes: List::new(),
            keywords: List::new(),
            colors: List::new(),
            mana_value: 1,
            has_x_in_cost: false,
            from_zone: Zone::Hand,
        }
    }

    let mut state = setup();
    let source = create_object(
        &mut state,
        CardId(99),
        PlayerId(1),
        text("Cosmogrand Zenith"),
        Zone::Battlefield,
    );
    {
        let obj = state.objects.get_mut(&source).unwrap();
        obj.trigger_definitions.push(
            TriggerDefinition::new(TriggerMode::SpellCast)
                .valid_target(TargetFilter::Typed(
                    TypedFilter::default().controller(ControllerRef::You),
                ))
                .constraint(TriggerConstraint::NthSpellThisTurn { n: 2, filter: None })
                .execute(AbilityDefinition::new(
                    AbilityKind::Database,
                    Effect::Draw {
                        count: QuantityExpr::Fixed { value: 1 },
                        target: TargetFilter::Controller,
                    },
                )),
        );
    }

    let opponent_spell = create_object(
        &mut state,
        CardId(1),
        PlayerId(0),
        text("Opponent Spell"),
        Zone::Stack,
    );
    set_casts(&mut state, PlayerId(0), vec![spell_record(), spell_record()]);
    process_triggers(
        &mut state,
        &[GameEvent::SpellCast {
            card_id: CardId(1),
            controller: PlayerId(0),
            object_id: opponent_spell,
        }],
    );
    assert!(
        state.stack.is_empty(),
        "source controller's 'you cast your second spell' trigger must not fire for an opponent's second spell"
    );

    let controller_spell = create_object(
        &mut state,
        CardId(2),
        PlayerId(1),
        text("Controller Spell"),
        Zone::Stack,
    );
    set_casts(&mut state, PlayerId(1), vec![spell_record(), spell_record()]);
    process_triggers(
        &mut state,
        &[GameEvent::SpellCast {
            card_id: CardId(2),
            controller: PlayerId(1),
            object_id: controller_spell,
        }],
    );

    assert_eq!(
        state.stack.len(),
        1,
        "source controller's second spell should fire the trigger"
    );
    assert!(matches!(
        state.stack.last().map(|entry| &entry.kind),
        Some(StackEntryKind::TriggeredAbility { .. })
    ));
    assert_eq!(
        state.stack.last().map(|entry| entry.source_id),
        Some(source)
    );
}

/// CR 111.1 + CR 603.6a: An ETB trigger like Elvish Vanguard's "whenever
/// another Elf enters" MUST fire when an Elf token is created. Tokens are
/// created in the battlefield zone with no prior zone — the engine emits
/// `ZoneChanged { from: None, to: Battlefield }` for token creation, and
/// the existing `ChangesZone` matcher (which requires no origin filter
/// for pure ETB triggers) matches this event. No token-specific trigger
/// code is required.
#[test]
fn etb_changes_zone_trigger_fires_on_token_creation() {
    let mut state = setup();
    state.active_player = PlayerId(0);

    // Stand-in for Elvish Vanguard: ETB trigger with no origin filter,
    // destination = Battlefield, filter = "another Elf".
    let vanguard = create_object(
        &mut state,
        CardId(1),
        PlayerId(0),
        text("Elvish Vanguard"),
        Zone::Battlefield,
    );
    {
        let obj = state.objects.get_mut(&vanguard).unwrap();
        obj.card_types.core_types.push(CoreType::Creature);
        obj.entered_battlefield_turn = Some(1);
        let mut trig = TriggerDefinition::new(TriggerMode::ChangesZone)
            .execute(AbilityDefinition::new(
                AbilityKind::Database,
                Effect::Draw {
                    count: QuantityExpr::Fixed { value: 1 },
                    target: TargetFilter::Controller,
                },
            ))
            .destination(Zone::Battlefield);
        trig.valid_card = Some(TargetFilter::Typed(
            TypedFilter::default()
                .with_type(TypeFilter::Subtype(text("Elf")))
                .properties(vec![FilterProp::Another]),
        ));
        obj.trigger_definitions.push(trig);
    }

    // Simulate an Elf token being created — `from: None` per CR 111.1 /
    // 603.6a. The matcher must fire because origin is unfiltered.
    let token_id = ObjectId(500);
    let events = vec![token_zone_changed_event(
        token_id,
        vec![CoreType::Creature],
        vec!["Elf"],
    )];

    process_triggers(&mut state, &events);

    assert_eq!(
        state.stack.len(),
        1,
        "ETB trigger (no origin filter) must fire on token creation"
    );
}

/// Negative: a trigger that explicitly names an origin zone ("whenever a
/// creature is put into a graveyard from the battlefield") must NOT fire
/// on token creation (`from: None`) — tokens did not come from any zone.
#[test]
fn dies_trigger_does_not_fire_on_token_creation() {
    let mut state = setup();
    state.active_player = PlayerId(0);

    let source = create_object(
        &mut state,
        CardId(1),
        PlayerId(0),
        text("Dies Source"),
        Zone::Battlefield,
    );
    {
        let obj = state.objects.get_mut(&source).unwrap();
        obj.card_types.core_types.push(CoreType::Creature);
        obj.entered_battlefield_turn = Some(1);
        obj.trigger_definitions.push(
            TriggerDefinition::new(TriggerMode::ChangesZone)
                .execute(AbilityDefinition::new(
                    AbilityKind::Database,
                    Effect::Draw {
                        count: QuantityExpr::Fixed { value: 1 },
                        target: TargetFilter::Controller,
                    },
                ))
                .origin(Zone::Battlefield)
                .destination(Zone::Graveyard),
        );
    }

    let token_id = ObjectId(600);
    let events = vec![token_zone_changed_event(
        token_id,
        vec![CoreType::Creature],
        Vec::new(),
    )];

    process_triggers(&mut state, &events);
    assert_eq!(state.stack.len(), 0);
}

// "Whenever you create one or more creature tokens" —
// batched token-creation trigger (CR 111.1 + CR 603.2c / 603.10c).
// Build a Staff-like source, emit 2 TokenCreated events for creature
// tokens controlled by P0, and verify the trigger fires exactly once.
fn make_token_created_trigger(
    type_filter: Option<TargetFilter>,
    controller_scope: Option<TargetFilter>,
) -> TriggerDefinition {
    let mut def = TriggerDefinition::new(TriggerMode::TokenCreated)
        .trigger_zones(vec![Zone::Battlefield])
        .execute(AbilityDefinition::new(
            AbilityKind::Database,
            Effect::Draw {
                count: QuantityExpr::Fixed { value: 1 },
                target: TargetFilter::Controller,
            },
        ));
    def.valid_card = type_filter;
    def.valid_target = controller_scope;
    def.batched = true;
    def
}

fn add_token_on_battlefield(
    state: &mut GameState,
    controller: PlayerId,
    core_types: Vec<CoreType>,
) -> ObjectId {
    let id = create_object(
        state,
        CardId(500),
        controller,
        text("Spirit Token"),
        Zone::Battlefield,
    );
    let obj = state.objects.get_mut(&id).unwrap();
    obj.controller = controller;
    obj.card_types.core_types = List::from_vec(core_types);
    obj.entered_battlefield_turn = Some(1);
    id
}

#[test]
fn tokens_created_trigger_fires_once_for_two_creature_tokens() {
    let mut state = setup();
    state.active_player = PlayerId(0);

    let source = create_object(
        &mut state,
        CardId(1),
        PlayerId(0),
        text("Staff of the Storyteller"),
        Zone::Battlefield,
    );
    {
        let obj = state.objects.get_mut(&source).unwrap();
        obj.entered_battlefield_turn = Some(1);
        obj.trigger_definitions.push(make_token_created_trigger(
            Some(TargetFilter::Typed(
                TypedFilter::default().with_type(TypeFilter::Creature),
            )),
            Some(TargetFilter::Controller),
        ));
    }

    let tok1 = add_token_on_battlefield(&mut state, PlayerId(0), vec![CoreType::Creature]);
    let tok2 = add_token_on_battlefield(&mut state, PlayerId(0), vec![CoreType::Creature]);

    let events = vec![
        GameEvent::TokenCreated {
            object_id: tok1,
            name: text("Spirit"),
        },
        GameEvent::TokenCreated {
            object_id: tok2,
            name: text("Spirit"),
        },
    ];

    process_triggers(&mut state, &events);
    assert_eq!(
        state.stack.len(),
        1,
        "batched trigger must fire once per pass even with 2 token-creation events"
    );
}

#[test]
fn batched_discard_trigger_context_matches_second_discarded_card_type() {
    let mut state = setup();
    state.active_player = PlayerId(0);

    let source = create_object(
        &mut state,
        CardId(1),
        PlayerId(0),
        text("Diviner"),
        Zone::Battlefield,
    );
    {
        let obj = state.objects.get_mut(&source).unwrap();
        obj.entered_battlefield_turn = Some(1);
        let mut trigger =
            TriggerDefinition::new(TriggerMode::DiscardedAll).execute(AbilityDefinition::new(
                AbilityKind::Database,
                Effect::Draw {
                    count: QuantityExpr::Fixed { value: 1 },
                    target: TargetFilter::Controller,
                },
            ));
        trigger.batched = true;
        obj.trigger_definitions.push(trigger);
    }

    let discarded_creature = create_object(
        &mut state,
        CardId(10),
        PlayerId(0),
        text("Discarded Creature"),
        Zone::Graveyard,
    );
    state
        .objects
        .get_mut(&discarded_creature)
        .unwrap()
        .card_types
        .core_types
        .push(CoreType::Creature);
    let discarded_instant = create_object(
        &mut state,
        CardId(11),
        PlayerId(0),
        text("Discarded Instant"),
        Zone::Graveyard,
    );
    state
        .objects
        .get_mut(&discarded_instant)
        .unwrap()
        .card_types
        .core_types
        .push(CoreType::Instant);
    let candidate_instant = create_object(
        &mut state,
        CardId(12),
        PlayerId(0),
        text("Candidate Instant"),
        Zone::Library,
    );
    state
        .objects
        .get_mut(&candidate_instant)
        .unwrap()
        .card_types
        .core_types
        .push(CoreType::Instant);

    process_triggers(
        &mut state,
        &[
            GameEvent::Discarded {
                player_id: PlayerId(0),
                object_id: discarded_creature,
            },
            GameEvent::Discarded {
                player_id: PlayerId(0),
                object_id: discarded_instant,
            },
        ],
    );

    assert_eq!(
        state.stack.len(),
        1,
        "DiscardedAll trigger should fire once for the batch"
    );
    let entry_id = state.stack.last().unwrap().id;
    let trigger_event = match &state.stack.last().unwrap().kind {
        StackEntryKind::TriggeredAbility { trigger_event, .. } => trigger_event.clone(),
        _ => panic!("Expected TriggeredAbility on stack"),
    };
    let trigger_events = state
        .stack_trigger_event_batches
        .get(&entry_id)
        .expect("batched trigger should store full event set")
        .clone();
    assert_eq!(trigger_events.len(), 2);

    state.current_trigger_event = trigger_event;
    state.current_trigger_events = trigger_events;

    let filter =
        TargetFilter::Typed(
            TypedFilter::card().properties(vec![FilterProp::SharesQuality {
                quality: SharedQuality::CardType,
                reference: Some(Rc::new(TargetFilter::TriggeringSource)),
                relation: SharedQualityRelation::Shares,
            }]),
        );

    assert!(
        matches_target_filter(
            &state,
            candidate_instant,
            &filter,
            &FilterContext::from_source(&state, source),
        ),
        "shared-quality reference should see the second discarded card's Instant type"
    );
}

#[test]
fn tokens_created_trigger_rejects_noncreature_token() {
    let mut state = setup();
    state.active_player = PlayerId(0);

    let source = create_object(
        &mut state,
        CardId(1),
        PlayerId(0),
        text("Staff of the Storyteller"),
        Zone::Battlefield,
    );
    {
        let obj = state.objects.get_mut(&source).unwrap();
        obj.entered_battlefield_turn = Some(1);
        obj.trigger_definitions.push(make_token_created_trigger(
            Some(TargetFilter::Typed(
                TypedFilter::default().with_type(TypeFilter::Creature),
            )),
            Some(TargetFilter::Controller),
        ));
    }

    // Artifact token only — "creature tokens" filter must reject.
    let tok = add_token_on_battlefield(&mut state, PlayerId(0), vec![CoreType::Artifact]);
    let events = vec![GameEvent::TokenCreated {
        object_id: tok,
        name: text("Treasure"),
    }];

    process_triggers(&mut state, &events);
    assert_eq!(state.stack.len(), 0);
}

#[test]
fn tokens_created_trigger_rejects_opponent_creator() {
    let mut state = setup();
    state.active_player = PlayerId(0);

    let source = create_object(
        &mut state,
        CardId(1),
        PlayerId(0),
        text("Staff of the Storyteller"),
        Zone::Battlefield,
    );
    {
        let obj = state.objects.get_mut(&source).unwrap();
        obj.entered_battlefield_turn = Some(1);
        obj.trigger_definitions.push(make_token_created_trigger(
            Some(TargetFilter::Typed(
                TypedFilter::default().with_type(TypeFilter::Creature),
            )),
            Some(TargetFilter::Controller),
        ));
    }

    // Opponent-controlled creature token — Controller-scope must reject.
    let tok = add_token_on_battlefield(&mut state, PlayerId(1), vec![CoreType::Creature]);
    let events = vec![GameEvent::TokenCreated {
        object_id: tok,
        name: text("Zombie"),
    }];

    process_triggers(&mut state, &events);
    assert_eq!(state.stack.len(), 0);
}

// CR 508.1 + CR 603.2c: Unit tests for the `AttackersDeclaredMin` condition
// (Firemane Commando's attack-batch-size gate).
#[test]
fn attackers_declared_min_counts_scope_you() {
    let mut state = setup();
    let trigger_controller = PlayerId(0);
    let a1 = create_object(
        &mut state,
        CardId(1),
        PlayerId(0),
        text("A1"),
        Zone::Battlefield,
    );
    let a2 = create_object(
        &mut state,
        CardId(2),
        PlayerId(0),
        text("A2"),
        Zone::Battlefield,
    );
    let event = GameEvent::AttackersDeclared {
        attacker_ids: List::from_vec(vec![a1, a2]),
        defending_player: PlayerId(1),
        attacks: List::from_vec(vec![
            (a1, AttackTarget::Player(PlayerId(1))),
            (a2, AttackTarget::Player(PlayerId(1))),
        ]),
    };
    let cond = TriggerCondition::AttackersDeclaredMin {
        scope: ControllerRef::You,
        minimum: 2,
    };
    assert!(check_trigger_condition(
        &state,
        &cond,
        trigger_controller,
        None,
        Some(&event),
    ));

    // Raising the threshold to 3 → condition fails.
    let cond3 = TriggerCondition::AttackersDeclaredMin {
        scope: ControllerRef::You,
        minimum: 3,
    };
    assert!(!check_trigger_condition(
        &state,
        &cond3,
        trigger_controller,
        None,
        Some(&event),
    ));
}

#[test]
fn attackers_declared_min_opponent_scope_ignores_your_attackers() {
    let mut state = setup();
    let trigger_controller = PlayerId(0);
    // Attackers controlled by the trigger controller — Opponent scope must NOT count them.
    let a1 = create_object(
        &mut state,
        CardId(1),
        PlayerId(0),
        text("A1"),
        Zone::Battlefield,
    );
    let a2 = create_object(
        &mut state,
        CardId(2),
        PlayerId(0),
        text("A2"),
        Zone::Battlefield,
    );
    let event = GameEvent::AttackersDeclared {
        attacker_ids: List::from_vec(vec![a1, a2]),
        defending_player: PlayerId(1),
        attacks: List::from_vec(vec![
            (a1, AttackTarget::Player(PlayerId(1))),
            (a2, AttackTarget::Player(PlayerId(1))),
        ]),
    };
    let cond = TriggerCondition::AttackersDeclaredMin {
        scope: ControllerRef::Opponent,
        minimum: 2,
    };
    assert!(!check_trigger_condition(
        &state,
        &cond,
        trigger_controller,
        None,
        Some(&event),
    ));
}

// CR 506.2 + CR 508.1b: Unit tests for `NoneOfAttackersTargetedYou`.
#[test]
fn none_of_attackers_targeted_you_true_when_all_attack_elsewhere() {
    let mut state = setup();
    let trigger_controller = PlayerId(0);
    // Opponent's attackers — both attacking a third party (not the trigger controller).
    let a1 = create_object(
        &mut state,
        CardId(1),
        PlayerId(1),
        text("A1"),
        Zone::Battlefield,
    );
    let a2 = create_object(
        &mut state,
        CardId(2),
        PlayerId(1),
        text("A2"),
        Zone::Battlefield,
    );
    // A planeswalker controlled by the trigger controller — attackers targeting this
    // planeswalker should NOT trip the "attacked you" condition (CR 506.2a).
    let pw = create_object(
        &mut state,
        CardId(3),
        PlayerId(0),
        text("PW"),
        Zone::Battlefield,
    );
    let event = GameEvent::AttackersDeclared {
        attacker_ids: List::from_vec(vec![a1, a2]),
        defending_player: PlayerId(0),
        attacks: List::from_vec(vec![
            (a1, AttackTarget::Planeswalker(pw)),
            (a2, AttackTarget::Planeswalker(pw)),
        ]),
    };
    let cond = TriggerCondition::NoneOfAttackersTargetedYou;
    assert!(check_trigger_condition(
        &state,
        &cond,
        trigger_controller,
        None,
        Some(&event),
    ));
}

#[test]
fn none_of_attackers_targeted_you_false_when_one_attacks_you() {
    let mut state = setup();
    let trigger_controller = PlayerId(0);
    let a1 = create_object(
        &mut state,
        CardId(1),
        PlayerId(1),
        text("A1"),
        Zone::Battlefield,
    );
    let a2 = create_object(
        &mut state,
        CardId(2),
        PlayerId(1),
        text("A2"),
        Zone::Battlefield,
    );
    let pw = create_object(
        &mut state,
        CardId(3),
        PlayerId(0),
        text("PW"),
        Zone::Battlefield,
    );
    let event = GameEvent::AttackersDeclared {
        attacker_ids: List::from_vec(vec![a1, a2]),
        defending_player: PlayerId(0),
        attacks: List::from_vec(vec![
            (a1, AttackTarget::Planeswalker(pw)),
            (
                a2,
                AttackTarget::Player(trigger_controller),
            ),
        ]),
    };
    let cond = TriggerCondition::NoneOfAttackersTargetedYou;
    assert!(!check_trigger_condition(
        &state,
        &cond,
        trigger_controller,
        None,
        Some(&event),
    ));
}

/// Tests for `TriggerCondition::WasCast` — the condition backing
/// "if you cast it" intervening-if clauses. For ETB-based triggers whose
/// source is a separate permanent (e.g. Light-Paws, Emperor's Voice:
/// "Whenever an Aura you control enters, if you cast it..."), the check
/// must inspect the entering object from the `ZoneChanged` event rather
/// than the trigger source. CR 601.2 / CR 603.4.
#[test]
fn was_cast_uses_entering_object_from_zone_changed_event() {
    let mut state = setup();
    // Light-Paws is on the battlefield; the Aura is the entering object.
    let light_paws = create_object(
        &mut state,
        CardId(1),
        PlayerId(0),
        text("Light-Paws"),
        Zone::Battlefield,
    );
    let aura = create_object(
        &mut state,
        CardId(2),
        PlayerId(0),
        text("Aura"),
        Zone::Battlefield,
    );
    // Aura was cast from hand — cast_from_zone is Some.
    state.objects.get_mut(&aura).unwrap().cast_from_zone = Some(Zone::Hand);
    // Light-Paws was NOT cast this ETB event (it's been in play).
    state.objects.get_mut(&light_paws).unwrap().cast_from_zone = None;

    let event = zone_changed_event(
        aura,
        Zone::Stack,
        Zone::Battlefield,
        vec![CoreType::Enchantment],
        vec!["Aura"],
    );

    // source_id = Light-Paws, but entering object in the event is the Aura.
    // WasCast must read the Aura's cast_from_zone, not Light-Paws's.
    assert!(check_trigger_condition(
        &state,
        &TriggerCondition::WasCast,
        PlayerId(0),
        Some(light_paws),
        Some(&event),
    ));
}

#[test]
fn was_cast_false_when_aura_put_onto_battlefield_not_cast() {
    let mut state = setup();
    let light_paws = create_object(
        &mut state,
        CardId(1),
        PlayerId(0),
        text("Light-Paws"),
        Zone::Battlefield,
    );
    let aura = create_object(
        &mut state,
        CardId(2),
        PlayerId(0),
        text("Aura"),
        Zone::Battlefield,
    );
    // Aura entered via reanimation / Academy Rector-style "put onto battlefield".
    state.objects.get_mut(&aura).unwrap().cast_from_zone = None;
    state.objects.get_mut(&light_paws).unwrap().cast_from_zone = None;

    let event = zone_changed_event(
        aura,
        Zone::Graveyard,
        Zone::Battlefield,
        vec![CoreType::Enchantment],
        vec!["Aura"],
    );

    assert!(!check_trigger_condition(
        &state,
        &TriggerCondition::WasCast,
        PlayerId(0),
        Some(light_paws),
        Some(&event),
    ));
}

#[test]
fn was_cast_self_referential_falls_back_to_source_id() {
    // Cascade / Discover-style: the trigger source IS the cast spell,
    // and no ZoneChanged event is attached (SpellCast event instead).
    // WasCast should fall back to source_id.
    let mut state = setup();
    let cast_spell = create_object(
        &mut state,
        CardId(1),
        PlayerId(0),
        text("Cast Spell"),
        Zone::Stack,
    );
    state.objects.get_mut(&cast_spell).unwrap().cast_from_zone = Some(Zone::Hand);

    assert!(check_trigger_condition(
        &state,
        &TriggerCondition::WasCast,
        PlayerId(0),
        Some(cast_spell),
        None,
    ));

    // And false when the self-referential source was not cast.
    state.objects.get_mut(&cast_spell).unwrap().cast_from_zone = None;
    assert!(!check_trigger_condition(
        &state,
        &TriggerCondition::WasCast,
        PlayerId(0),
        Some(cast_spell),
        None,
    ));
}

#[test]
fn granted_casualty_triggers_copy_when_paid() {
    let mut state = setup();
    let caster = PlayerId(0);
    let source = create_object(
        &mut state,
        CardId(1),
        caster,
        text("Silverquill Source"),
        Zone::Battlefield,
    );
    let grant = StaticDefinition::new(StaticMode::CastWithKeyword {
        keyword: Keyword::Casualty(1),
    })
    .affected(TargetFilter::Typed(
        TypedFilter::new(TypeFilter::Instant).controller(ControllerRef::You),
    ));
    state
        .objects
        .get_mut(&source)
        .unwrap()
        .static_definitions
        .push(grant);

    let spell = create_object(
        &mut state,
        CardId(2),
        caster,
        text("Test Instant"),
        Zone::Stack,
    );
    {
        let obj = state.objects.get_mut(&spell).unwrap();
        obj.card_types.core_types.push(CoreType::Instant);
        obj.cast_from_zone = Some(Zone::Hand);
    }
    let mut ability = ResolvedAbility::new(
        Effect::Draw {
            count: QuantityExpr::Fixed { value: 1 },
            target: TargetFilter::Controller,
        },
        Vec::new(),
        spell,
        caster,
    );
    ability.context.additional_cost_paid = true;
    state.stack.push(StackEntry {
        id: spell,
        source_id: spell,
        controller: caster,
        kind: StackEntryKind::Spell {
            card_id: CardId(2),
            ability: Some(ability),
            casting_variant: CastingVariant::Normal,
            actual_mana_spent: 0,
        },
    });

    process_triggers(
        &mut state,
        &[GameEvent::SpellCast {
            object_id: spell,
            controller: caster,
            card_id: CardId(2),
        }],
    );

    assert!(
        state.stack.iter().any(|entry| {
            matches!(
                &entry.kind,
                StackEntryKind::TriggeredAbility { ability, .. }
                    if matches!(&*ability.effect, Effect::CopySpell { target: TargetFilter::SelfRef })
            )
        }),
        "paid granted casualty should create a copy trigger"
    );
}

#[test]
fn background_granted_commander_attack_trigger_uses_defending_player_life_condition() {
    let mut state = setup();
    let controller = PlayerId(0);
    state.players[0].life = 20;
    state.players[1].life = 20;

    let background = create_object(
        &mut state,
        CardId(1),
        controller,
        text("Guild Artisan"),
        Zone::Battlefield,
    );
    let commander = create_object(
        &mut state,
        CardId(2),
        controller,
        text("Commander"),
        Zone::Battlefield,
    );
    {
        let obj = state.objects.get_mut(&commander).unwrap();
        obj.card_types.core_types.push(CoreType::Creature);
        obj.base_card_types = obj.card_types.clone();
        obj.is_commander = true;
    }

    let mut granted_trigger = TriggerDefinition::new(TriggerMode::Attacks)
        .valid_card(TargetFilter::SelfRef)
        .condition(TriggerCondition::QuantityComparison {
            lhs: QuantityExpr::Ref {
                qty: QuantityRef::LifeTotal {
                    player: PlayerScope::Opponent {
                        aggregate: AggregateFunction::Max,
                    },
                },
            },
            comparator: Comparator::LE,
            rhs: QuantityExpr::Ref {
                qty: QuantityRef::LifeTotal {
                    player: PlayerScope::DefendingPlayer,
                },
            },
        })
        .execute(AbilityDefinition::new(
            AbilityKind::Database,
            Effect::Draw {
                count: QuantityExpr::Fixed { value: 1 },
                target: TargetFilter::Controller,
            },
        ));
    granted_trigger.attack_target_filter = Some(AttackTargetFilter::Player);

    let grant = StaticDefinition::continuous()
        .affected(TargetFilter::Typed(
            TypedFilter::new(TypeFilter::Creature).properties(vec![
                FilterProp::IsCommander,
                FilterProp::Owned {
                    controller: ControllerRef::You,
                },
            ]),
        ))
        .modifications(vec![ContinuousModification::GrantTrigger {
            trigger: Rc::new(granted_trigger),
        }]);
    state
        .objects
        .get_mut(&background)
        .unwrap()
        .static_definitions
        .push(grant);
    state.layers_dirty = true;

    process_triggers(
        &mut state,
        &[GameEvent::AttackersDeclared {
            attacker_ids: List::from_vec(vec![commander]),
            defending_player: PlayerId(1),
            attacks: List::from_vec(vec![(
                commander,
                AttackTarget::Player(PlayerId(1)),
            )]),
        }],
    );

    assert!(
        state.stack.iter().any(|entry| entry.source_id == commander
            && matches!(&entry.kind, StackEntryKind::TriggeredAbility { ability, .. }
                if matches!(&*ability.effect, Effect::Draw { .. }))),
        "Guild Artisan-style Background grant should trigger from the attacking commander"
    );
}

#[test]
fn additional_cost_paid_uses_entering_object_kicker_facts() {
    let mut state = setup();
    let source = create_object(
        &mut state,
        CardId(1),
        PlayerId(0),
        text("Kicker Watcher"),
        Zone::Battlefield,
    );
    let entering = create_object(
        &mut state,
        CardId(2),
        PlayerId(0),
        text("Kicked Creature"),
        Zone::Battlefield,
    );
    state
        .objects
        .get_mut(&entering)
        .unwrap()
        .kickers_paid
        .push(KickerVariant::First);

    let event = zone_changed_event(
        entering,
        Zone::Stack,
        Zone::Battlefield,
        vec![CoreType::Creature],
        vec![],
    );

    assert!(check_trigger_condition(
        &state,
        &TriggerCondition::AdditionalCostPaid {
            variant: None,
            kicker_cost: None,
            min_count: 1,
        },
        PlayerId(0),
        Some(source),
        Some(&event),
    ));
}

#[test]
fn additional_cost_paid_min_count_checks_multikicker_count() {
    let mut state = setup();
    let source = create_object(
        &mut state,
        CardId(1),
        PlayerId(0),
        text("Kicked Creature"),
        Zone::Battlefield,
    );
    state
        .objects
        .get_mut(&source)
        .unwrap()
        .kickers_paid = List::from_vec(vec![KickerVariant::First, KickerVariant::First]);

    assert!(check_trigger_condition(
        &state,
        &TriggerCondition::AdditionalCostPaid {
            variant: None,
            kicker_cost: None,
            min_count: 2,
        },
        PlayerId(0),
        Some(source),
        None,
    ));
}

/// CR 121.1 + CR 504.1 + CR 603.4 — `ExceptFirstDrawInDrawStep` gates
/// Orcish Bowmasters' trigger so the active player's mandatory first draw
/// of their draw step does NOT fire it. Subsequent draws (extra draws,
/// any draws outside the draw step, opponent draws during their own draw
/// step's mandatory first draw, etc.) all fire normally.
#[test]
fn except_first_draw_in_draw_step_suppresses_only_active_first_draw() {
    let mut state = setup();
    state.active_player = PlayerId(0);
    state.phase = Phase::Draw;
    let controller = PlayerId(1); // Bowmasters' controller (the opponent)
    let condition = TriggerCondition::ExceptFirstDrawInDrawStep;

    // Active player (P0) drawing their FIRST card of the draw step → suppress.
    let first_draw = GameEvent::CardDrawn {
        player_id: PlayerId(0),
        object_id: ObjectId(50),
        nth_in_turn: 1,
        nth_in_step: 1,
    };
    assert!(
        !check_trigger_condition(&state, &condition, controller, None, Some(&first_draw)),
        "the mandatory first draw of the active player's draw step must NOT fire"
    );

    // Same active player drawing a SECOND card during their draw step → fire.
    let extra_draw = GameEvent::CardDrawn {
        player_id: PlayerId(0),
        object_id: ObjectId(51),
        nth_in_turn: 2,
        nth_in_step: 2,
    };
    assert!(
        check_trigger_condition(&state, &condition, controller, None, Some(&extra_draw)),
        "any subsequent draw during the active player's draw step must fire"
    );

    // Outside the draw step — first draw of a different step still fires.
    state.phase = Phase::Upkeep;
    let upkeep_first = GameEvent::CardDrawn {
        player_id: PlayerId(0),
        object_id: ObjectId(52),
        nth_in_turn: 3,
        nth_in_step: 1,
    };
    assert!(
        check_trigger_condition(&state, &condition, controller, None, Some(&upkeep_first)),
        "first draw outside the draw step must fire"
    );

    // Back in draw step but the NON-active player draws first (e.g., a
    // forced draw on the opponent during the active player's draw step).
    // The exception only excuses the active player's mandatory draw, so a
    // draw by anyone else still fires the trigger.
    state.phase = Phase::Draw;
    let opponent_draw = GameEvent::CardDrawn {
        player_id: PlayerId(1),
        object_id: ObjectId(53),
        nth_in_turn: 1,
        nth_in_step: 1,
    };
    assert!(
        check_trigger_condition(&state, &condition, controller, None, Some(&opponent_draw)),
        "draw step draws by the non-active player must fire"
    );
}

/// CR 603.4 + CR 102.1 — `DuringPlayersTurn { TriggeringPlayer }`
/// gates Tataru Taru's Scions' Secretary so it ONLY fires when an opponent
/// draws a card on a turn that isn't theirs. Drawing on their own turn (the
/// drawer == active player) must NOT fire.
#[test]
fn during_players_turn_triggering_player_tracks_event_player() {
    let mut state = setup();
    let controller = PlayerId(0); // Tataru Taru's owner
    let opponent = PlayerId(1);

    let affirmative = TriggerCondition::DuringPlayersTurn {
        player: PlayerFilter::TriggeringPlayer,
    };
    let negation = TriggerCondition::Not {
        condition: Rc::new(TriggerCondition::DuringPlayersTurn {
            player: PlayerFilter::TriggeringPlayer,
        }),
    };

    // Opponent draws on their own turn → affirmative true, negation false.
    state.active_player = opponent;
    let own_turn_draw = GameEvent::CardDrawn {
        player_id: opponent,
        object_id: ObjectId(50),
        nth_in_turn: 1,
        nth_in_step: 1,
    };
    assert!(
        check_trigger_condition(&state, &affirmative, controller, None, Some(&own_turn_draw)),
        "affirmative must hold when the drawing player IS active"
    );
    assert!(
        !check_trigger_condition(&state, &negation, controller, None, Some(&own_turn_draw)),
        "Tataru Taru must NOT trigger on an opponent's own-turn draw"
    );

    // Opponent draws on the controller's turn → affirmative false, negation true.
    state.active_player = controller;
    let off_turn_draw = GameEvent::CardDrawn {
        player_id: opponent,
        object_id: ObjectId(51),
        nth_in_turn: 2,
        nth_in_step: 2,
    };
    assert!(
        !check_trigger_condition(&state, &affirmative, controller, None, Some(&off_turn_draw)),
        "affirmative must NOT hold when the drawing player is not active"
    );
    assert!(
        check_trigger_condition(&state, &negation, controller, None, Some(&off_turn_draw)),
        "Tataru Taru MUST trigger when an opponent draws on a turn that isn't theirs"
    );
}

/// CR 603.4 + CR 102.1 — `DuringPlayersTurn { Controller }` is true iff
/// the active player is the trigger controller.
#[test]
fn during_players_turn_controller_tracks_active_vs_controller() {
    let mut state = setup();
    let controller = PlayerId(0);
    let condition = TriggerCondition::DuringPlayersTurn {
        player: PlayerFilter::Controller,
    };

    state.active_player = PlayerId(0);
    assert!(check_trigger_condition(
        &state, &condition, controller, None, None
    ));

    state.active_player = PlayerId(1);
    assert!(!check_trigger_condition(
        &state, &condition, controller, None, None
    ));
}

/// CR 603.4 + CR 102.1 + CR 102.2 — `DuringPlayersTurn { Opponent }`
/// is true iff the active player is NOT the trigger controller.
#[test]
fn during_players_turn_opponent_tracks_active_not_controller() {
    let mut state = setup();
    let controller = PlayerId(0);
    let condition = TriggerCondition::DuringPlayersTurn {
        player: PlayerFilter::Opponent,
    };

    state.active_player = PlayerId(0);
    assert!(!check_trigger_condition(
        &state, &condition, controller, None, None
    ));

    state.active_player = PlayerId(1);
    assert!(check_trigger_condition(
        &state, &condition, controller, None, None
    ));
}

// === Sliver-lord self-static keyword/trigger grant ===
// CR 603.6a + CR 611.2e: Static abilities that grant abilities/keywords to
// a class of permanents apply the moment a newcomer enters the battlefield.
// ETB-trigger gathering MUST see the granted-trigger on the entering object
// itself (Harmonic Sliver) and the granted keyword on the entering source
// (Venom Sliver / sliver-lord pattern). Pending layer evaluation is
// flushed at the top of `process_triggers`.

/// Helper: create a battlefield Sliver creature owned by `controller` with
/// a `Sliver` subtype tag, ready for layer evaluation.
fn make_sliver(state: &mut GameState, controller: PlayerId, name: &str) -> ObjectId {
    let id = create_object(
        state,
        CardId(0xB1A1),
        controller,
        text(name),
        Zone::Battlefield,
    );
    let obj = state.objects.get_mut(&id).unwrap();
    obj.card_types.core_types.push(CoreType::Creature);
    obj.card_types.subtypes.push(text("Sliver"));
    obj.base_card_types = obj.card_types.clone();
    obj.entered_battlefield_turn = Some(0);
    obj.power = Some(2);
    obj.toughness = Some(2);
    obj.base_power = Some(2);
    obj.base_toughness = Some(2);
    id
}

#[test]
fn harmonic_sliver_self_etb_trigger_via_own_static_grant() {
    // CR 603.6a: Each time an event puts one or more permanents onto the
    // battlefield, all permanents on the battlefield (INCLUDING the
    // newcomers) are checked for any ETB triggers that match the event.
    // Harmonic Sliver's printed static "All Slivers have 'When this
    // permanent enters, destroy target ...'" grants its own ETB trigger
    // back to itself. The granted trigger MUST fire on Harmonic Sliver's
    // own ETB.
    let mut state = setup();
    state.active_player = PlayerId(0);

    let harmonic = make_sliver(&mut state, PlayerId(0), "Harmonic Sliver");

    // Static: "Creature & Sliver" => GrantTrigger(ChangesZone -> Battlefield, SelfRef, Draw 1).
    // We use Draw rather than Destroy to keep the test free of target prompts.
    let granted_trigger = TriggerDefinition::new(TriggerMode::ChangesZone)
        .destination(Zone::Battlefield)
        .valid_card(TargetFilter::SelfRef)
        .execute(AbilityDefinition::new(
            AbilityKind::Database,
            Effect::Draw {
                count: QuantityExpr::Fixed { value: 1 },
                target: TargetFilter::Controller,
            },
        ));
    let static_def = StaticDefinition::continuous()
        .affected(TargetFilter::Typed(TypedFilter {
            type_filters: List::from_vec(vec![
                TypeFilter::Creature,
                TypeFilter::Subtype(text("Sliver")),
            ]),
            controller: None,
            properties: List::new(),
        }))
        .modifications(vec![
            ContinuousModification::GrantTrigger {
                trigger: Rc::new(granted_trigger),
            },
        ]);
    let obj = state.objects.get_mut(&harmonic).unwrap();
    obj.static_definitions.push(static_def);

    // Layers haven't run yet — granted trigger is NOT on obj.trigger_definitions
    // until we evaluate. process_triggers must flush layers first.
    state.layers_dirty = true;

    let events = vec![zone_changed_event(
        harmonic,
        Zone::Hand,
        Zone::Battlefield,
        vec![CoreType::Creature],
        vec!["Sliver"],
    )];
    process_triggers(&mut state, &events);

    assert_eq!(
        state.stack.len(),
        1,
        "Harmonic Sliver's own ETB must trigger the granted ability per CR 603.6a"
    );
}

#[test]
fn other_sliver_etb_triggers_via_lord_grant() {
    // Two slivers on the battlefield: Lord (with the static) is already in
    // play; a new Sliver enters. The lord's grant must apply to the
    // newcomer so that the newcomer's own ETB fires the granted trigger.
    let mut state = setup();
    state.active_player = PlayerId(0);

    let lord = make_sliver(&mut state, PlayerId(0), "Lord Sliver");
    let granted_trigger = TriggerDefinition::new(TriggerMode::ChangesZone)
        .destination(Zone::Battlefield)
        .valid_card(TargetFilter::SelfRef)
        .execute(AbilityDefinition::new(
            AbilityKind::Database,
            Effect::Draw {
                count: QuantityExpr::Fixed { value: 1 },
                target: TargetFilter::Controller,
            },
        ));
    let static_def = StaticDefinition::continuous()
        .affected(TargetFilter::Typed(TypedFilter {
            type_filters: List::from_vec(vec![
                TypeFilter::Creature,
                TypeFilter::Subtype(text("Sliver")),
            ]),
            controller: None,
            properties: List::new(),
        }))
        .modifications(vec![
            ContinuousModification::GrantTrigger {
                trigger: Rc::new(granted_trigger),
            },
        ]);
    let lord_obj = state.objects.get_mut(&lord).unwrap();
    lord_obj.static_definitions.push(static_def);

    // Newcomer Sliver enters — both lord and newcomer should get the grant
    // applied via layers, and the newcomer's ETB must fire the granted
    // trigger from the newcomer (not from the lord, which already ETB'd).
    let newcomer = make_sliver(&mut state, PlayerId(0), "Other Sliver");
    state.layers_dirty = true;

    let events = vec![zone_changed_event(
        newcomer,
        Zone::Hand,
        Zone::Battlefield,
        vec![CoreType::Creature],
        vec!["Sliver"],
    )];
    process_triggers(&mut state, &events);

    // Both slivers (lord + newcomer) have the granted trigger via layers.
    // Per CR 603.6a only the newcomer matches the ETB event with
    // valid_card=SelfRef, so exactly one trigger fires.
    assert_eq!(
        state.stack.len(),
        1,
        "newcomer Sliver's own ETB must fire the granted self-ETB trigger exactly once"
    );
}

#[test]
fn non_sliver_etb_does_not_fire_lord_grant() {
    // Negative: the lord's grant must not extend to a
    // non-Sliver creature. Layers correctly filter the affected set.
    let mut state = setup();
    state.active_player = PlayerId(0);

    let lord = make_sliver(&mut state, PlayerId(0), "Lord Sliver");
    let granted_trigger = TriggerDefinition::new(TriggerMode::ChangesZone)
        .destination(Zone::Battlefield)
        .valid_card(TargetFilter::SelfRef)
        .execute(AbilityDefinition::new(
            AbilityKind::Database,
            Effect::Draw {
                count: QuantityExpr::Fixed { value: 1 },
                target: TargetFilter::Controller,
            },
        ));
    let static_def = StaticDefinition::continuous()
        .affected(TargetFilter::Typed(TypedFilter {
            type_filters: List::from_vec(vec![
                TypeFilter::Creature,
                TypeFilter::Subtype(text("Sliver")),
            ]),
            controller: None,
            properties: List::new(),
        }))
        .modifications(vec![
            ContinuousModification::GrantTrigger {
                trigger: Rc::new(granted_trigger),
            },
        ]);
    let lord_obj = state.objects.get_mut(&lord).unwrap();
    lord_obj.static_definitions.push(static_def);

    // Non-Sliver creature enters.
    let bear = create_object(
        &mut state,
        CardId(0xBEA1),
        PlayerId(0),
        text("Grizzly Bears"),
        Zone::Battlefield,
    );
    {
        let obj = state.objects.get_mut(&bear).unwrap();
        obj.card_types.core_types.push(CoreType::Creature);
        obj.card_types.subtypes.push(text("Bear"));
        obj.base_card_types = obj.card_types.clone();
        obj.entered_battlefield_turn = Some(0);
        obj.power = Some(2);
        obj.toughness = Some(2);
        obj.base_power = Some(2);
        obj.base_toughness = Some(2);
    }
    state.layers_dirty = true;

    let events = vec![zone_changed_event(
        bear,
        Zone::Hand,
        Zone::Battlefield,
        vec![CoreType::Creature],
        vec!["Bear"],
    )];
    process_triggers(&mut state, &events);

    assert_eq!(
        state.stack.len(),
        0,
        "non-Sliver creature must not fire the lord's grant"
    );
}

#[test]
fn venom_sliver_self_grants_deathtouch_via_layer_flush_in_process_triggers() {
    // CR 611.2e: Venom Sliver pattern — a printed static "Sliver creatures
    // you control have deathtouch" must apply to the source itself once
    // layers are evaluated. Pins that calling `process_triggers` (which
    // happens immediately after a zone change in the post-action pipeline)
    // flushes pending layer evaluation so the granted keyword is on
    // `obj.keywords` for any subsequent combat-damage or trigger check
    // that reads it.
    let mut state = setup();
    state.active_player = PlayerId(0);

    let venom = make_sliver(&mut state, PlayerId(0), "Venom Sliver");

    let static_def = StaticDefinition::continuous()
        .affected(TargetFilter::Typed(TypedFilter {
            type_filters: List::from_vec(vec![
                TypeFilter::Creature,
                TypeFilter::Subtype(text("Sliver")),
            ]),
            controller: Some(ControllerRef::You),
            properties: List::new(),
        }))
        .modifications(vec![
            ContinuousModification::AddKeyword {
                keyword: Rc::new(Keyword::Deathtouch),
            },
        ]);
    let obj = state.objects.get_mut(&venom).unwrap();
    obj.static_definitions.push(static_def);

    // Before any layer evaluation, the keyword is NOT on obj.keywords.
    assert!(
        !state
            .objects
            .get(&venom)
            .unwrap()
            .has_keyword(KeywordKind::Deathtouch),
        "precondition: keyword absent until layers run"
    );

    // Drive the post-action trigger scan: process_triggers must flush
    // layers before scanning so granted keywords are visible.
    state.layers_dirty = true;
    process_triggers(&mut state, &[]);

    assert!(
        state
            .objects
            .get(&venom)
            .unwrap()
            .has_keyword(KeywordKind::Deathtouch),
        "Venom Sliver self-grants deathtouch once layers run via process_triggers"
    );
}

#[test]
fn arcane_adaptation_vampire_type_change_is_visible_to_etb_trigger_matching() {
    let mut state = setup();
    state.active_player = PlayerId(0);

    let adaptation = create_object(
        &mut state,
        CardId(0xADAF),
        PlayerId(0),
        text("Arcane Adaptation"),
        Zone::Battlefield,
    );
    {
        let obj = state.objects.get_mut(&adaptation).unwrap();
        obj.chosen_attributes
            .push(ChosenAttribute::CreatureType(text("Vampire")));
        let static_def = StaticDefinition::continuous()
            .affected(TargetFilter::Typed(
                TypedFilter::creature().controller(ControllerRef::You),
            ))
            .modifications(vec![ContinuousModification::AddChosenCreatureType]);
        obj.static_definitions.push(static_def);
    }

    let evelyn = make_creature(&mut state, PlayerId(0), "Evelyn, the Covetous", 2, 5);
    {
        let obj = state.objects.get_mut(&evelyn).unwrap();
        obj.card_types.subtypes.push(text("Vampire"));
        obj.base_card_types = obj.card_types.clone();
        obj.trigger_definitions.push(
            TriggerDefinition::new(TriggerMode::ChangesZone)
                .destination(Zone::Battlefield)
                .valid_card(TargetFilter::Typed(
                    TypedFilter::creature()
                        .subtype(text("Vampire"))
                        .controller(ControllerRef::You),
                ))
                .execute(AbilityDefinition::new(
                    AbilityKind::Database,
                    Effect::Draw {
                        count: QuantityExpr::Fixed { value: 1 },
                        target: TargetFilter::Controller,
                    },
                )),
        );
    }

    let bear = make_creature(&mut state, PlayerId(0), "Grizzly Bears", 2, 2);
    {
        let obj = state.objects.get_mut(&bear).unwrap();
        obj.card_types.subtypes.push(text("Bear"));
        obj.base_card_types = obj.card_types.clone();
    }
    state.layers_dirty = true;

    let events = vec![zone_changed_event(
        bear,
        Zone::Hand,
        Zone::Battlefield,
        vec![CoreType::Creature],
        vec!["Bear"],
    )];
    process_triggers(&mut state, &events);

    assert_eq!(
        state.stack.len(),
        1,
        "Arcane Adaptation's type-changing layer must make the entering creature match Evelyn's Vampire ETB trigger"
    );
}
