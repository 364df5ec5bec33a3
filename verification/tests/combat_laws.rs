//! What holds of combat damage as a whole, on given games.

use engine::ability::{
    DamageTargetFilter, DamageTargetPlayerScope, Keyword, ProtectionTarget, PtValue, QuantityExpr,
    QuantityRef, ReplacementDefinition, StaticDefinition, StaticMode, TargetFilter, TokenRider,
    TokenSpec, TypeFilter, TypedFilter,
};
use engine::combat::{
    can_block_pair, AttackerInfo, CombatState, DamageAssignment, DamageTarget, TrampleKind,
};
use engine::combat_damage::assignment::{
    assign_attacker_damage, assign_damage_as_though_unblocked, assign_trample_over_pw_excess,
    check_strikes_in, combat_damage_amount, combat_damage_assignment_modes,
    compute_pw_loyalty_threshold, distribute_blocker_damage, lethal_damage_needed,
    needs_interactive_assignment, SubStep,
};
use engine::combat_damage::collection::collect_damage_assignments;
use engine::combat_damage::dealing::apply_combat_damage;
use engine::combat_damage::{resolve_combat_damage, take_pending_damage};
use engine::events::GameEvent;
use engine::ids::{
    AttackTarget, CardId, ControllerRef, CoreType, ManaColor, ObjectId, PlayerId, Supertype,
    TargetRef, Zone,
};
use engine::list::List;
use engine::replacement::{replace_combat_damage_batch, ProposedDamage, ReplacementId};
use engine::state::{CombatDamageAssignmentMode, CommanderDamageEntry, GameState};
use engine::targeting::find_legal_targets;
use engine::text::Text;
use engine::zones::create_object;
use std::rc::Rc;

fn creature(state: &mut GameState, owner: PlayerId, power: i32, toughness: i32) -> ObjectId {
    let card = CardId(state.next_object_id);
    let id = create_object(
        state,
        card,
        owner,
        Text::new("Creature".to_string()),
        Zone::Battlefield,
    );
    let obj = state.objects.get_mut(&id).unwrap();
    obj.card_types.core_types.push(CoreType::Creature);
    obj.power = Some(power);
    obj.toughness = Some(toughness);
    id
}

fn planeswalker(state: &mut GameState, owner: PlayerId, loyalty: u32) -> ObjectId {
    let card = CardId(state.next_object_id);
    let id = create_object(state, card, owner, Text::new("Walker".to_string()), Zone::Battlefield);
    let obj = state.objects.get_mut(&id).unwrap();
    obj.card_types.core_types.push(CoreType::Planeswalker);
    obj.loyalty = Some(loyalty);
    id
}

fn give(state: &mut GameState, id: ObjectId, keyword: Keyword) {
    state.objects.get_mut(&id).unwrap().keywords.push(keyword);
}

/// A combat with one attacker, blocked by the given creatures.
fn combat_of(info: AttackerInfo, blockers: Vec<ObjectId>) -> CombatState {
    let mut combat = CombatState::new();
    let attacker = info.object_id;
    let blocked = !blockers.is_empty();
    combat.attackers = List::one(AttackerInfo { blocked, ..info });
    for &blocker in &blockers {
        combat.blocker_to_attacker.push((blocker, List::one(attacker)));
    }
    combat.blocker_assignments = List::one((attacker, List::from_vec(blockers)));
    combat
}

fn to_object(id: ObjectId, amount: u32) -> DamageAssignment {
    DamageAssignment { target: DamageTarget::Object(id), amount }
}

fn to_player(id: PlayerId, amount: u32) -> DamageAssignment {
    DamageAssignment { target: DamageTarget::Player(id), amount }
}

fn shares(power: u32, attackers: Vec<u64>) -> Vec<(u64, u32)> {
    let ids = List::from_vec(attackers.into_iter().map(ObjectId).collect());
    distribute_blocker_damage(ObjectId(9), power, &ids)
        .into_iter()
        .map(|(source, damage)| {
            assert_eq!(source, ObjectId(9));
            match damage.target {
                DamageTarget::Object(id) => (id.0, damage.amount),
                DamageTarget::Player(_) => panic!("a blocker deals damage to creatures"),
            }
        })
        .collect()
}

#[test]
fn blocker_splits_its_damage_and_the_first_attacker_takes_the_rest() {
    assert_eq!(shares(5, vec![1, 2, 3]), vec![(1, 3), (2, 1), (3, 1)]);
    assert_eq!(shares(6, vec![1, 2, 3]), vec![(1, 2), (2, 2), (3, 2)]);
    assert_eq!(shares(3, vec![1, 2]), vec![(1, 2), (2, 1)]);
}

#[test]
fn blocker_leaves_out_attackers_whose_share_is_nothing() {
    assert_eq!(shares(2, vec![1, 2, 3]), vec![(1, 2)]);
    assert_eq!(shares(4, vec![7]), vec![(7, 4)]);
    assert_eq!(shares(0, vec![7]), vec![(7, 0)]);
    assert_eq!(shares(3, vec![]), vec![]);
}

#[test]
fn combat_damage_comes_from_power_or_toughness_and_is_never_negative() {
    let mut state = GameState::new_two_player(1);
    let id = creature(&mut state, PlayerId(0), 2, 5);
    let obj = state.objects.get_mut(&id).unwrap();
    assert_eq!(combat_damage_amount(obj), 2);
    obj.assigns_damage_from_toughness = true;
    assert_eq!(combat_damage_amount(obj), 5);
    obj.toughness = Some(-3);
    assert_eq!(combat_damage_amount(obj), 0);
    obj.assigns_damage_from_toughness = false;
    obj.power = None;
    assert_eq!(combat_damage_amount(obj), 0);
    obj.power = Some(4);
    obj.assigns_no_combat_damage = true;
    assert_eq!(combat_damage_amount(obj), 0);
}

#[test]
fn creatures_strike_in_the_sub_steps_of_their_keywords() {
    let mut state = GameState::new_two_player(1);
    let plain = creature(&mut state, PlayerId(0), 1, 1);
    let first = creature(&mut state, PlayerId(0), 1, 1);
    let double = creature(&mut state, PlayerId(0), 1, 1);
    give(&mut state, first, Keyword::FirstStrike);
    give(&mut state, double, Keyword::DoubleStrike);
    let strikes = |id: ObjectId| {
        let obj = state.objects.get(&id).unwrap();
        (
            check_strikes_in(obj, SubStep::FirstStrike, false),
            check_strikes_in(obj, SubStep::Regular, true),
        )
    };
    assert_eq!(strikes(plain), (false, true));
    assert_eq!(strikes(first), (true, false));
    assert_eq!(strikes(double), (true, true));
    // Without a first-strike sub-step a creature with first strike deals its damage with the rest.
    assert!(check_strikes_in(state.objects.get(&first).unwrap(), SubStep::Regular, false));
}

#[test]
fn trample_gives_the_blocker_lethal_damage_first() {
    let mut state = GameState::new_two_player(1);
    let attacker = creature(&mut state, PlayerId(0), 5, 5);
    let blocker = creature(&mut state, PlayerId(1), 0, 3);
    state.objects.get_mut(&blocker).unwrap().damage_marked = 1;
    let info = AttackerInfo {
        blocked: true,
        ..AttackerInfo::attacking_player(attacker, PlayerId(1))
    };
    let combat = combat_of(info, vec![blocker]);
    let assign = |power: u32, deathtouch: bool, trample: Option<TrampleKind>| {
        assign_attacker_damage(&state, &info, &combat, power, deathtouch, trample)
    };
    let standard = Some(TrampleKind::Standard);
    assert_eq!(
        assign(5, false, standard),
        vec![to_object(blocker, 2), to_player(PlayerId(1), 3)]
    );
    assert_eq!(
        assign(5, true, standard),
        vec![to_object(blocker, 1), to_player(PlayerId(1), 4)]
    );
    assert_eq!(assign(2, false, standard), vec![to_object(blocker, 2)]);
    assert_eq!(assign(5, false, None), vec![to_object(blocker, 5)]);
}

#[test]
fn attacker_whose_blocker_is_gone_deals_damage_only_with_trample() {
    let mut state = GameState::new_two_player(1);
    let attacker = creature(&mut state, PlayerId(0), 4, 4);
    let info = AttackerInfo {
        blocked: true,
        ..AttackerInfo::attacking_player(attacker, PlayerId(1))
    };
    let combat = combat_of(info, vec![]);
    assert_eq!(assign_attacker_damage(&state, &info, &combat, 4, false, None), vec![]);
    assert_eq!(
        assign_attacker_damage(&state, &info, &combat, 4, false, Some(TrampleKind::Standard)),
        vec![to_player(PlayerId(1), 4)]
    );
}

#[test]
fn planeswalker_takes_its_loyalty_before_its_defender_takes_anything() {
    let mut state = GameState::new_two_player(1);
    let attacker = creature(&mut state, PlayerId(0), 7, 7);
    let walker = planeswalker(&mut state, PlayerId(1), 4);
    let info = AttackerInfo::new(attacker, AttackTarget::Planeswalker(walker), PlayerId(1));
    state.combat = Some(combat_of(info, vec![]));
    assert_eq!(
        assign_trample_over_pw_excess(&state, &info, 7),
        vec![to_object(walker, 4), to_player(PlayerId(1), 3)]
    );
    assert_eq!(assign_trample_over_pw_excess(&state, &info, 3), vec![to_object(walker, 3)]);
    assert_eq!(assign_trample_over_pw_excess(&state, &info, 0), vec![]);

    // Damage that is already on its way counts against the loyalty.
    state.combat.as_mut().unwrap().pending_damage =
        List::one((ObjectId(99), to_object(walker, 3)));
    assert_eq!(
        compute_pw_loyalty_threshold(&state, &info.attack_target),
        (Some(1), Some(PlayerId(1)))
    );
    assert_eq!(
        compute_pw_loyalty_threshold(&state, &AttackTarget::Player(PlayerId(1))),
        (None, None)
    );
    assert_eq!(
        assign_trample_over_pw_excess(&state, &info, 7),
        vec![to_object(walker, 1), to_player(PlayerId(1), 6)]
    );
}

#[test]
fn damage_as_though_unblocked_needs_something_to_go_to() {
    let mut state = GameState::new_two_player(1);
    let attacker = creature(&mut state, PlayerId(0), 2, 2);
    let gone = AttackerInfo::new(
        attacker,
        AttackTarget::Planeswalker(ObjectId(77)),
        PlayerId(1),
    );
    assert_eq!(assign_damage_as_though_unblocked(&state, &gone, 2, None), vec![]);
    assert_eq!(
        assign_damage_as_though_unblocked(
            &state,
            &gone,
            2,
            Some(TrampleKind::OverPlaneswalkers)
        ),
        vec![to_player(PlayerId(1), 2)]
    );
}

#[test]
fn division_is_chosen_among_two_blockers_or_with_the_option() {
    let mut state = GameState::new_two_player(1);
    let attacker = creature(&mut state, PlayerId(0), 4, 4);
    let one = creature(&mut state, PlayerId(1), 1, 1);
    let two = creature(&mut state, PlayerId(1), 1, 1);
    let info = AttackerInfo {
        blocked: true,
        ..AttackerInfo::attacking_player(attacker, PlayerId(1))
    };
    let obj = state.objects.get_mut(&attacker).unwrap();
    assert!(!needs_interactive_assignment(obj, &combat_of(info, vec![one]), &info));
    assert!(needs_interactive_assignment(obj, &combat_of(info, vec![one, two]), &info));
    assert_eq!(
        combat_damage_assignment_modes(obj, true, true, None),
        vec![CombatDamageAssignmentMode::Normal]
    );
    obj.assigns_damage_as_though_unblocked = true;
    assert!(needs_interactive_assignment(obj, &combat_of(info, vec![one]), &info));
    assert!(needs_interactive_assignment(obj, &combat_of(info, vec![]), &info));
    assert_eq!(
        combat_damage_assignment_modes(obj, true, false, None),
        vec![CombatDamageAssignmentMode::Normal, CombatDamageAssignmentMode::AsThoughUnblocked]
    );
    assert_eq!(
        combat_damage_assignment_modes(obj, true, false, Some(TrampleKind::Standard)),
        vec![CombatDamageAssignmentMode::Normal]
    );
}

#[test]
fn lethal_damage_counts_what_is_marked() {
    let mut state = GameState::new_two_player(1);
    let id = creature(&mut state, PlayerId(1), 0, 4);
    state.objects.get_mut(&id).unwrap().damage_marked = 3;
    assert_eq!(lethal_damage_needed(&state, id, false), 1);
    state.objects.get_mut(&id).unwrap().damage_marked = 9;
    assert_eq!(lethal_damage_needed(&state, id, false), 0);
    assert_eq!(lethal_damage_needed(&state, id, true), 1);
    assert_eq!(lethal_damage_needed(&state, ObjectId(500), false), 1);
}

#[test]
fn collected_damage_waits_until_it_is_taken() {
    let mut state = GameState::new_two_player(1);
    let attacker = creature(&mut state, PlayerId(0), 3, 3);
    state.combat = Some(combat_of(
        AttackerInfo::attacking_player(attacker, PlayerId(1)),
        vec![],
    ));
    assert_eq!(collect_damage_assignments(&mut state, SubStep::Regular), None);
    assert_eq!(state.players[1].life, 20);
    assert_eq!(take_pending_damage(&mut state), vec![(attacker, to_player(PlayerId(1), 3))]);
    assert_eq!(take_pending_damage(&mut state), vec![]);
}

#[test]
fn combat_damage_is_dealt_once() {
    let mut state = GameState::new_two_player(1);
    let attacker = creature(&mut state, PlayerId(0), 3, 3);
    give(&mut state, attacker, Keyword::DoubleStrike);
    state.combat = Some(combat_of(
        AttackerInfo::attacking_player(attacker, PlayerId(1)),
        vec![],
    ));
    let mut events = Vec::new();
    assert_eq!(resolve_combat_damage(&mut state, &mut events), None);
    assert_eq!(state.players[1].life, 14);
    let told = events.len();
    let combat = state.combat.as_ref().unwrap();
    assert!(combat.first_strike_done && combat.regular_damage_done);
    assert_eq!(combat.pending_damage.len(), 0);

    assert_eq!(resolve_combat_damage(&mut state, &mut events), None);
    assert_eq!(state.players[1].life, 14);
    assert_eq!(events.len(), told);
}

#[test]
fn creatures_that_kill_each_other_are_gone_when_damage_has_settled() {
    let mut state = GameState::new_two_player(1);
    let attacker = creature(&mut state, PlayerId(0), 3, 3);
    let blocker = creature(&mut state, PlayerId(1), 3, 3);
    state.combat = Some(combat_of(
        AttackerInfo::attacking_player(attacker, PlayerId(1)),
        vec![blocker],
    ));
    let mut events = Vec::new();
    resolve_combat_damage(&mut state, &mut events);
    assert_eq!(state.battlefield, vec![]);
    for id in [attacker, blocker] {
        assert_eq!(state.objects.get(&id).unwrap().zone, Zone::Graveyard);
        let moves = events
            .iter()
            .filter(|e| matches!(e, GameEvent::ZoneChanged { object_id, .. } if *object_id == id))
            .count();
        assert_eq!(moves, 1);
    }
}

#[test]
fn a_player_is_told_of_once_however_many_creatures_hit() {
    let mut state = GameState::new_two_player(1);
    let a = creature(&mut state, PlayerId(0), 2, 2);
    let b = creature(&mut state, PlayerId(0), 3, 3);
    let events = apply_combat_damage(
        &mut state,
        &vec![(a, to_player(PlayerId(1), 2)), (b, to_player(PlayerId(1), 3))],
    );
    assert_eq!(state.players[1].life, 15);
    let told: Vec<&GameEvent> = events
        .iter()
        .filter(|e| matches!(e, GameEvent::CombatDamageDealtToPlayer { .. }))
        .collect();
    assert_eq!(
        told,
        vec![&GameEvent::CombatDamageDealtToPlayer {
            player_id: PlayerId(1),
            source_amounts: List::from_vec(vec![(a, 2), (b, 3)]),
            total_damage: 5,
        }]
    );
}

#[test]
fn commander_damage_adds_up_by_commander_and_player() {
    let mut state = GameState::new_two_player(1);
    let a = creature(&mut state, PlayerId(0), 2, 2);
    let b = creature(&mut state, PlayerId(0), 3, 3);
    for id in [a, b] {
        state.objects.get_mut(&id).unwrap().is_commander = true;
    }
    for _ in 0..2 {
        apply_combat_damage(
            &mut state,
            &vec![(a, to_player(PlayerId(1), 2)), (b, to_player(PlayerId(1), 3))],
        );
    }
    assert_eq!(
        state.commander_damage,
        vec![
            CommanderDamageEntry { player: PlayerId(1), commander: a, damage: 4 },
            CommanderDamageEntry { player: PlayerId(1), commander: b, damage: 6 },
        ]
    );
}

#[test]
fn a_shield_is_tallied_once_with_all_that_it_prevents() {
    let mut state = GameState::new_two_player(1);
    state.pending_damage_replacements.push(ReplacementDefinition {
        combat_only: true,
        damage_target_filter: Some(DamageTargetFilter::Player {
            player: DamageTargetPlayerScope::Specific(PlayerId(1)),
        }),
        runtime_execute: None,
    });
    let damage = |player: u8, amount: u32, is_combat: bool| ProposedDamage {
        target: TargetRef::Player(PlayerId(player)),
        amount,
        is_combat,
    };
    let rid = ReplacementId { source: ObjectId(0), index: 0 };
    let (shields, tally) = replace_combat_damage_batch(
        &state,
        &vec![damage(1, 4, true), damage(0, 2, true), damage(1, 5, true), damage(1, 6, false)],
    );
    assert_eq!(shields, vec![Some(rid), None, Some(rid), None]);
    assert_eq!(tally, vec![(rid, 9)]);
}

#[test]
fn prevented_damage_is_told_of_once_for_the_whole_batch() {
    let mut state = GameState::new_two_player(1);
    state.pending_damage_replacements.push(ReplacementDefinition {
        combat_only: false,
        damage_target_filter: Some(DamageTargetFilter::Player {
            player: DamageTargetPlayerScope::Any,
        }),
        runtime_execute: None,
    });
    let a = creature(&mut state, PlayerId(0), 2, 2);
    let b = creature(&mut state, PlayerId(0), 3, 3);
    let events = apply_combat_damage(
        &mut state,
        &vec![(a, to_player(PlayerId(1), 2)), (b, to_player(PlayerId(1), 3))],
    );
    assert_eq!(state.players[1].life, 20);
    let prevented: Vec<&GameEvent> = events
        .iter()
        .filter(|e| matches!(e, GameEvent::DamagePrevented { .. }))
        .collect();
    assert_eq!(
        prevented,
        vec![&GameEvent::DamagePrevented {
            source_id: ObjectId(0),
            target: TargetRef::Object(ObjectId(0)),
            amount: 5,
        }]
    );
}

/// The combat damage to players that some events tell of.
fn told(events: &[GameEvent]) -> Vec<(PlayerId, Vec<(ObjectId, u32)>, u32)> {
    events
        .iter()
        .filter_map(|e| match e {
            GameEvent::CombatDamageDealtToPlayer { player_id, source_amounts, total_damage } => {
                let amounts = (0..source_amounts.len())
                    .map(|i| *source_amounts.get(i).unwrap())
                    .collect();
                Some((*player_id, amounts, *total_damage))
            }
            _ => None,
        })
        .collect()
}

#[test]
fn each_player_is_told_once_and_the_amounts_add_up() {
    let mut state = GameState::new_two_player(1);
    let a = creature(&mut state, PlayerId(0), 2, 2);
    let b = creature(&mut state, PlayerId(0), 3, 3);
    let events = apply_combat_damage(
        &mut state,
        &vec![
            (a, to_player(PlayerId(1), 2)),
            (b, to_player(PlayerId(1), 3)),
            (b, to_player(PlayerId(0), 1)),
            (a, to_player(PlayerId(1), 4)),
        ],
    );
    assert_eq!(
        told(&events),
        vec![(PlayerId(1), vec![(a, 6), (b, 3)], 9), (PlayerId(0), vec![(b, 1)], 1)]
    );
}

#[test]
fn a_batch_adds_up_what_each_commander_deals_to_each_player() {
    let mut state = GameState::new_two_player(1);
    let a = creature(&mut state, PlayerId(0), 2, 2);
    let b = creature(&mut state, PlayerId(0), 3, 3);
    let plain = creature(&mut state, PlayerId(0), 3, 3);
    for id in [a, b] {
        state.objects.get_mut(&id).unwrap().is_commander = true;
    }
    state.commander_damage.push(CommanderDamageEntry {
        player: PlayerId(1),
        commander: b,
        damage: 5,
    });
    apply_combat_damage(
        &mut state,
        &vec![
            (a, to_player(PlayerId(1), 2)),
            (b, to_player(PlayerId(1), 3)),
            (plain, to_player(PlayerId(1), 7)),
            (a, to_player(PlayerId(1), 4)),
        ],
    );
    assert_eq!(
        state.commander_damage,
        vec![
            CommanderDamageEntry { player: PlayerId(1), commander: b, damage: 8 },
            CommanderDamageEntry { player: PlayerId(1), commander: a, damage: 6 },
        ]
    );
}

#[test]
fn protection_prevents_damage_from_its_quality_and_it_is_told() {
    let mut state = GameState::new_two_player(1);
    let red = creature(&mut state, PlayerId(0), 3, 3);
    state.objects.get_mut(&red).unwrap().colors = List::one(ManaColor::Red);
    let colorless = creature(&mut state, PlayerId(0), 1, 1);
    let knight = creature(&mut state, PlayerId(1), 2, 5);
    give(&mut state, knight, Keyword::Protection(ProtectionTarget::Color(ManaColor::Red)));
    let events = apply_combat_damage(
        &mut state,
        &vec![(red, to_object(knight, 3)), (colorless, to_object(knight, 1))],
    );
    assert_eq!(state.objects.get(&knight).unwrap().damage_marked, 1);
    let prevented = GameEvent::DamagePrevented {
        source_id: red,
        target: TargetRef::Object(knight),
        amount: 3,
    };
    assert_eq!(events.iter().filter(|e| matches!(e, GameEvent::DamagePrevented { .. })).count(), 1);
    assert!(events.contains(&prevented));
}

#[test]
fn protection_from_a_card_type_or_from_everything_prevents_damage() {
    let mut state = GameState::new_two_player(1);
    let attacker = creature(&mut state, PlayerId(0), 3, 3);
    for (protection, marked) in [
        (ProtectionTarget::CardType(CoreType::Creature), 0),
        (ProtectionTarget::CardType(CoreType::Artifact), 3),
        (ProtectionTarget::Everything, 0),
    ] {
        let id = creature(&mut state, PlayerId(1), 2, 5);
        give(&mut state, id, Keyword::Protection(protection));
        apply_combat_damage(&mut state, &vec![(attacker, to_object(id, 3))]);
        assert_eq!(state.objects.get(&id).unwrap().damage_marked, marked);
    }
}

#[test]
fn prohibited_damage_never_comes_about() {
    let mut state = GameState::new_two_player(1);
    let attacker = creature(&mut state, PlayerId(0), 3, 3);
    let blocker = creature(&mut state, PlayerId(1), 2, 5);
    let ward = creature(&mut state, PlayerId(1), 0, 1);
    // "Creatures your opponents control deal no damage to players."
    state.objects.get_mut(&ward).unwrap().static_definitions = List::one(StaticDefinition {
        mode: StaticMode::ProhibitDamage { recipient: Some(TargetFilter::Player) },
        affected: Some(TargetFilter::Typed(TypedFilter {
            type_filters: List::one(TypeFilter::Creature),
            controller: Some(ControllerRef::Opponent),
            properties: List::new(),
        })),
        condition: None,
        modifications: List::new(),
    });
    let events = apply_combat_damage(
        &mut state,
        &vec![(attacker, to_player(PlayerId(1), 3)), (attacker, to_object(blocker, 3))],
    );
    assert_eq!(state.players[1].life, 20);
    assert_eq!(state.objects.get(&blocker).unwrap().damage_marked, 3);
    assert_eq!(told(&events), vec![]);
    assert!(!events.iter().any(|e| matches!(e, GameEvent::DamagePrevented { .. })));

    state.objects.get_mut(&ward).unwrap().static_definitions = List::one(StaticDefinition {
        mode: StaticMode::ProhibitDamage { recipient: None },
        affected: None,
        condition: None,
        modifications: List::new(),
    });
    apply_combat_damage(&mut state, &vec![(attacker, to_object(blocker, 2))]);
    assert_eq!(state.objects.get(&blocker).unwrap().damage_marked, 3);
}

/// "Prevent all combat damage to `player`. Create `each` Inklings for each 1 damage prevented."
fn inkshield(player: PlayerId, each: i32) -> ReplacementDefinition {
    ReplacementDefinition {
        combat_only: true,
        damage_target_filter: Some(DamageTargetFilter::Player {
            player: DamageTargetPlayerScope::Specific(player),
        }),
        runtime_execute: Some(Rc::new(TokenRider {
            tokens: TokenSpec {
                name: Text::new("Inkling".to_string()),
                power: PtValue::Fixed(2),
                toughness: PtValue::Quantity(QuantityExpr::Ref {
                    qty: QuantityRef::EventContextAmount,
                }),
                supertypes: List::one(Supertype::Legendary),
                core_types: List::one(CoreType::Creature),
                subtypes: List::new(),
                colors: List::new(),
                keywords: List::new(),
                tapped: true,
                count: QuantityExpr::Fixed { value: each },
            },
            repeat_for: Some(QuantityExpr::Ref { qty: QuantityRef::EventContextAmount }),
            source_id: ObjectId(0),
            controller: player,
        })),
    }
}

#[test]
fn a_rider_fires_once_for_all_that_its_shield_has_prevented() {
    let mut state = GameState::new_two_player(1);
    let a = creature(&mut state, PlayerId(0), 2, 2);
    let b = creature(&mut state, PlayerId(0), 1, 1);
    let permanents = state.battlefield.len();
    state.pending_damage_replacements.push(inkshield(PlayerId(1), 2));
    let events = apply_combat_damage(
        &mut state,
        &vec![(a, to_player(PlayerId(1), 2)), (b, to_player(PlayerId(1), 1))],
    );
    assert_eq!(state.players[1].life, 20);
    assert_eq!(state.last_effect_count, Some(3));
    assert_eq!(state.battlefield.len(), permanents + 6);
    let inkling = state.objects.get(state.battlefield.last().unwrap()).unwrap();
    assert_eq!((inkling.power, inkling.toughness), (Some(2), Some(3)));
    assert_eq!(inkling.controller, PlayerId(1));
    assert!(inkling.is_token && inkling.tapped);
    assert!(inkling.card_types.supertypes.contains(&Supertype::Legendary));
    let prevented: Vec<u32> = events
        .iter()
        .filter_map(|e| match e {
            GameEvent::DamagePrevented { amount, .. } => Some(*amount),
            _ => None,
        })
        .collect();
    assert_eq!(prevented, vec![3]);
}

#[test]
fn a_total_beyond_the_largest_amount_stays_at_it() {
    let mut state = GameState::new_two_player(1);
    let a = creature(&mut state, PlayerId(0), 1, 1);
    let b = creature(&mut state, PlayerId(0), 1, 1);
    let events = apply_combat_damage(
        &mut state,
        &vec![
            (a, to_player(PlayerId(1), u32::MAX)),
            (b, to_player(PlayerId(1), 5)),
            (a, to_player(PlayerId(0), 7)),
            (a, to_player(PlayerId(1), 1)),
        ],
    );
    assert_eq!(
        told(&events),
        vec![
            (PlayerId(1), vec![(a, u32::MAX), (b, 5)], u32::MAX),
            (PlayerId(0), vec![(a, 7)], 7),
        ]
    );
}

#[test]
fn a_creature_cannot_be_blocked_by_what_it_has_protection_from() {
    let mut state = GameState::new_two_player(1);
    let attacker = creature(&mut state, PlayerId(0), 2, 2);
    let red = creature(&mut state, PlayerId(1), 3, 3);
    state.objects.get_mut(&red).unwrap().colors = List::one(ManaColor::Red);
    let colorless = creature(&mut state, PlayerId(1), 3, 3);
    assert!(can_block_pair(&state, red, attacker));
    give(&mut state, attacker, Keyword::Protection(ProtectionTarget::Color(ManaColor::Red)));
    assert!(!can_block_pair(&state, red, attacker));
    assert!(can_block_pair(&state, colorless, attacker));
    assert!(can_block_pair(&state, attacker, red));
}

#[test]
fn nothing_targets_what_has_protection_from_it() {
    let mut state = GameState::new_two_player(1);
    let source = creature(&mut state, PlayerId(0), 2, 2);
    state.objects.get_mut(&source).unwrap().colors = List::one(ManaColor::Black);
    let open = creature(&mut state, PlayerId(1), 1, 1);
    let knight = creature(&mut state, PlayerId(1), 2, 2);
    give(&mut state, knight, Keyword::Protection(ProtectionTarget::Color(ManaColor::Black)));
    let creatures = TargetFilter::Typed(TypedFilter {
        type_filters: List::one(TypeFilter::Creature),
        controller: Some(ControllerRef::Opponent),
        properties: List::new(),
    });
    assert_eq!(
        find_legal_targets(&state, &creatures, source, PlayerId(0)),
        vec![TargetRef::Object(open)]
    );
}
