//! What holds of players, zones, dungeons and the Ring, on given games.

use engine::ability::{
    AbilityCost, Duration, Effect, GainLifePlayer, PlayerFilter, PtValue, QuantityExpr,
    ResolvedAbility, TargetFilter,
};
use engine::dungeon::{available_dungeons, is_bottommost, next_rooms, VentureSource};
use engine::effects::ring::{
    clear_ring_bearer_if_object, find_ring_level, is_current_ring_bearer, normalize_ring_bearers,
    ring_bearer_for,
};
use engine::effects::venture::{
    handle_choose_dungeon, handle_choose_room, resolve, resolve_venture_into,
};
use engine::effects::{ring, venture};
use engine::elimination::eliminate_player;
use engine::events::GameEvent;
use engine::ids::{CardId, CoreType, DungeonId, ObjectId, PlayerId, Supertype, Zone};
use engine::layers::evaluate_layers;
use engine::list::List;
use engine::players::{is_alive, next_player, teammates};
use engine::sba::check_state_based_actions;
use engine::state::{
    DungeonProgress, FormatConfig, GameState, MulliganEntry, StackEntry, StackEntryKind,
    WaitingFor,
};
use engine::text::Text;
use engine::zones::{create_object, move_to_zone};

fn creature(state: &mut GameState, owner: PlayerId, toughness: i32) -> ObjectId {
    let card = CardId(state.next_object_id);
    let id = create_object(
        state,
        card,
        owner,
        Text::new("Creature".to_string()),
        Zone::Battlefield,
    );
    let obj = state.objects.get_mut(&id).unwrap();
    obj.card_types.core_types.push(CoreType::Creature);
    obj.power = Some(1);
    obj.toughness = Some(toughness);
    id
}

fn three_players() -> GameState {
    GameState::new(FormatConfig::free_for_all(), 3, 42)
}

#[test]
fn the_next_player_is_the_next_one_alive() {
    let mut state = three_players();
    assert_eq!(next_player(&state, PlayerId(0)), PlayerId(1));
    assert_eq!(next_player(&state, PlayerId(2)), PlayerId(0));
    state.players[1].is_eliminated = true;
    assert!(!is_alive(&state, PlayerId(1)));
    assert_eq!(next_player(&state, PlayerId(0)), PlayerId(2));
}

#[test]
fn teammates_sit_side_by_side() {
    let state = GameState::new(FormatConfig::two_headed_giant(), 4, 42);
    assert_eq!(teammates(&state, PlayerId(0)), vec![PlayerId(1)]);
    assert_eq!(teammates(&state, PlayerId(3)), vec![PlayerId(2)]);
}

#[test]
fn a_player_leaves_once_and_for_good() {
    let mut state = three_players();
    let mut events = Vec::new();
    eliminate_player(&mut state, PlayerId(1), &mut events);
    let told = events.len();
    eliminate_player(&mut state, PlayerId(1), &mut events);
    assert_eq!(events.len(), told);
    eliminate_player(&mut state, PlayerId(2), &mut events);
    assert!(state.players[1].is_eliminated && state.players[2].is_eliminated);
    assert_eq!(state.eliminated_players, vec![PlayerId(1), PlayerId(2)]);
    assert_eq!(state.waiting_for, WaitingFor::GameOver { winner: Some(PlayerId(0)) });
}

#[test]
fn a_leaving_monarch_hands_the_crown_to_the_active_player() {
    let mut state = three_players();
    state.active_player = PlayerId(2);
    state.monarch = Some(PlayerId(0));
    let mut events = Vec::new();
    eliminate_player(&mut state, PlayerId(0), &mut events);
    assert_eq!(state.monarch, Some(PlayerId(2)));
    assert!(events.contains(&GameEvent::MonarchChanged { player_id: PlayerId(2) }));
}

#[test]
fn a_leaving_active_monarch_hands_the_crown_to_the_next_player() {
    let mut state = three_players();
    state.active_player = PlayerId(0);
    state.monarch = Some(PlayerId(0));
    eliminate_player(&mut state, PlayerId(0), &mut Vec::new());
    assert_eq!(state.monarch, Some(PlayerId(1)));
}

#[test]
fn the_last_player_to_leave_leaves_no_monarch_and_no_winner() {
    let mut state = GameState::new_two_player(42);
    state.monarch = Some(PlayerId(0));
    state.initiative = Some(PlayerId(0));
    state.players[1].is_eliminated = true;
    eliminate_player(&mut state, PlayerId(0), &mut Vec::new());
    assert_eq!(state.monarch, None);
    assert_eq!(state.initiative, None);
    assert_eq!(state.waiting_for, WaitingFor::GameOver { winner: None });
}

#[test]
fn the_heir_of_the_initiative_ventures() {
    let mut state = three_players();
    state.active_player = PlayerId(1);
    state.initiative = Some(PlayerId(2));
    eliminate_player(&mut state, PlayerId(2), &mut Vec::new());
    assert_eq!(state.initiative, Some(PlayerId(1)));
    assert_eq!(state.stack.len(), 1);
    assert_eq!(state.stack[0].controller, PlayerId(1));
    assert!(matches!(state.stack[0].kind, StackEntryKind::TriggeredAbility { .. }));
}

#[test]
fn the_game_does_not_wait_for_a_player_who_has_left() {
    let mut state = three_players();
    state.waiting_for = WaitingFor::Priority { player: PlayerId(1) };
    eliminate_player(&mut state, PlayerId(1), &mut Vec::new());
    assert_eq!(state.waiting_for, WaitingFor::Priority { player: PlayerId(2) });
}

#[test]
fn mulligans_wait_only_for_players_who_are_left() {
    let mut state = three_players();
    let entry = |player: u8| MulliganEntry { player: PlayerId(player), count: 0 };
    state.waiting_for = WaitingFor::MulliganDecision {
        pending: List::from_vec(vec![entry(0), entry(1)]),
        free_first_mulligan: true,
    };
    eliminate_player(&mut state, PlayerId(1), &mut Vec::new());
    assert_eq!(
        state.waiting_for,
        WaitingFor::MulliganDecision { pending: List::one(entry(0)), free_first_mulligan: true }
    );
}

#[test]
fn mulligans_go_on_when_the_last_to_decide_leaves() {
    let mut state = three_players();
    state.final_mulligan_counts.insert(PlayerId(0), 2);
    state.final_mulligan_counts.insert(PlayerId(1), 1);
    state.waiting_for = WaitingFor::MulliganDecision {
        pending: List::one(MulliganEntry { player: PlayerId(1), count: 1 }),
        free_first_mulligan: false,
    };
    eliminate_player(&mut state, PlayerId(1), &mut Vec::new());
    assert_eq!(
        state.waiting_for,
        WaitingFor::MulliganBottomCards {
            pending: List::one(MulliganEntry { player: PlayerId(0), count: 2 }),
        }
    );
    assert_eq!(state.final_mulligan_counts.get(&PlayerId(1)), None);
}

#[test]
fn mulligans_are_over_when_the_last_with_cards_to_put_back_leaves() {
    let mut state = three_players();
    state.active_player = PlayerId(0);
    state.waiting_for = WaitingFor::MulliganBottomCards {
        pending: List::one(MulliganEntry { player: PlayerId(2), count: 1 }),
    };
    eliminate_player(&mut state, PlayerId(2), &mut Vec::new());
    assert_eq!(state.waiting_for, WaitingFor::Priority { player: PlayerId(0) });
}

#[test]
fn a_permanent_that_leaves_is_where_it_went() {
    let mut state = GameState::new_two_player(42);
    let stays = creature(&mut state, PlayerId(0), 2);
    let goes = creature(&mut state, PlayerId(1), 2);
    let mut events = Vec::new();
    move_to_zone(&mut state, goes, Zone::Exile, &mut events);
    assert_eq!(state.battlefield, vec![stays]);
    assert_eq!(state.exile, vec![goes]);
    assert_eq!(state.objects.get(&goes).unwrap().zone, Zone::Exile);
    assert_eq!(state.objects.get(&stays).unwrap().zone, Zone::Battlefield);
    assert_eq!(events.len(), 1);
}

#[test]
fn state_based_actions_come_to_an_end() {
    let mut state = GameState::new_two_player(42);
    let dead = creature(&mut state, PlayerId(0), 0);
    let alive = creature(&mut state, PlayerId(0), 1);
    let mut events = Vec::new();
    check_state_based_actions(&mut state, &mut events);
    assert_eq!(state.battlefield, vec![alive]);
    assert_eq!(state.objects.get(&dead).unwrap().zone, Zone::Graveyard);
    let told = events.len();
    assert_eq!(told, 1);
    check_state_based_actions(&mut state, &mut events);
    assert_eq!(events.len(), told);
}

#[test]
fn a_player_without_life_leaves() {
    let mut state = three_players();
    state.players[1].life = 0;
    state.players[2].poison_counters = 10;
    check_state_based_actions(&mut state, &mut Vec::new());
    assert_eq!(state.waiting_for, WaitingFor::GameOver { winner: Some(PlayerId(0)) });
}

#[test]
fn continuous_effects_move_nothing() {
    let mut state = GameState::new_two_player(42);
    let id = creature(&mut state, PlayerId(0), 2);
    state.layers_dirty = true;
    evaluate_layers(&mut state);
    assert!(!state.layers_dirty);
    assert_eq!(state.battlefield, vec![id]);
}

#[test]
fn rooms_lead_down_to_one_last_room() {
    let mut room: u8 = 0;
    let mut steps: u32 = 0;
    while !is_bottommost(DungeonId::Undercity, room) {
        let next = next_rooms(DungeonId::Undercity, room);
        assert!(next.iter().all(|r| *r > room));
        room = next[0];
        steps += 1;
        assert!(steps < 20);
    }
    assert_eq!(next_rooms(DungeonId::Undercity, room), Vec::<u8>::new());
    assert_eq!(
        available_dungeons(VentureSource::Specific(DungeonId::Undercity)),
        vec![DungeonId::Undercity]
    );
}

#[test]
fn a_venture_moves_nobody_elses_marker() {
    let mut state = GameState::new_two_player(42);
    let there = DungeonProgress {
        current_dungeon: Some(DungeonId::Undercity),
        current_room: 0,
        completed: List::one(DungeonId::TombOfAnnihilation),
    };
    state.dungeon_progress.insert(PlayerId(1), there.clone());
    let ability = ResolvedAbility::new(
        Effect::VentureInto { dungeon: DungeonId::Undercity },
        Vec::new(),
        ObjectId(9),
        PlayerId(0),
    );
    resolve_venture_into(&mut state, &ability, DungeonId::Undercity, &mut Vec::new()).unwrap();
    assert_eq!(state.dungeon_progress.get(&PlayerId(1)), Some(&there));
    let mine = state.dungeon_progress.get(&PlayerId(0)).unwrap();
    assert_eq!((mine.current_dungeon, mine.current_room), (Some(DungeonId::Undercity), 0));
    assert!(state.pending_trigger.is_some());
}

#[test]
fn a_venture_from_the_last_room_keeps_what_was_completed() {
    let mut state = GameState::new_two_player(42);
    let mut last: u8 = 0;
    while !is_bottommost(DungeonId::LostMineOfPhandelver, last) {
        last += 1;
    }
    state.dungeon_progress.insert(
        PlayerId(0),
        DungeonProgress {
            current_dungeon: Some(DungeonId::LostMineOfPhandelver),
            current_room: last,
            completed: List::one(DungeonId::Undercity),
        },
    );
    let ability =
        ResolvedAbility::new(Effect::VentureIntoDungeon, Vec::new(), ObjectId(9), PlayerId(0));
    let mut events = Vec::new();
    resolve(&mut state, &ability, &mut events).unwrap();
    let progress = state.dungeon_progress.get(&PlayerId(0)).unwrap();
    assert_eq!(
        progress.completed,
        List::from_vec(vec![DungeonId::Undercity, DungeonId::LostMineOfPhandelver])
    );
    assert!(events.contains(&GameEvent::DungeonCompleted {
        player_id: PlayerId(0),
        dungeon: DungeonId::LostMineOfPhandelver,
    }));
    assert!(matches!(
        state.waiting_for,
        WaitingFor::ChooseDungeon { player: PlayerId(0), .. }
    ));
}

#[test]
fn a_chosen_dungeon_and_a_chosen_room_are_entered() {
    let mut state = GameState::new_two_player(42);
    let mut events = Vec::new();
    handle_choose_dungeon(&mut state, PlayerId(0), DungeonId::TombOfAnnihilation, &mut events);
    assert!(state.pending_trigger.is_some());
    state.pending_trigger = None;
    let room = next_rooms(DungeonId::TombOfAnnihilation, 0)[1];
    handle_choose_room(&mut state, PlayerId(0), DungeonId::TombOfAnnihilation, room, &mut events);
    let progress = state.dungeon_progress.get(&PlayerId(0)).unwrap();
    assert_eq!(
        (progress.current_dungeon, progress.current_room),
        (Some(DungeonId::TombOfAnnihilation), room)
    );
    assert_eq!(events.len(), 2);
    assert_eq!(state.pending_trigger.unwrap().controller, PlayerId(0));
}

#[test]
fn taking_the_initiative_hands_it_over() {
    let mut state = GameState::new_two_player(42);
    state.initiative = Some(PlayerId(1));
    let ability =
        ResolvedAbility::new(Effect::TakeTheInitiative, Vec::new(), ObjectId(9), PlayerId(0));
    venture::resolve_take_initiative(&mut state, &ability, &mut Vec::new()).unwrap();
    assert_eq!(state.initiative, Some(PlayerId(0)));
    assert!(state.pending_trigger.is_some());
}

#[test]
fn temptation_raises_one_players_level() {
    let mut state = GameState::new_two_player(42);
    let ability =
        ResolvedAbility::new(Effect::RingTemptsYou, Vec::new(), ObjectId(1), PlayerId(1));
    for level in [1, 2, 3, 4, 4] {
        ring::resolve(&mut state, &ability, &mut Vec::new()).unwrap();
        assert_eq!(find_ring_level(&state, PlayerId(1)), level);
    }
    assert_eq!(find_ring_level(&state, PlayerId(0)), 0);
}

#[test]
fn lapsed_designations_are_dropped_once() {
    let mut state = GameState::new_two_player(42);
    let mine = creature(&mut state, PlayerId(0), 2);
    let stolen = creature(&mut state, PlayerId(1), 2);
    state.ring_bearer.insert(PlayerId(0), Some(mine));
    state.ring_bearer.insert(PlayerId(1), Some(stolen));
    state.objects.get_mut(&stolen).unwrap().controller = PlayerId(0);
    assert_eq!(ring_bearer_for(&state, PlayerId(0)), Some(mine));
    assert_eq!(ring_bearer_for(&state, PlayerId(1)), None);
    assert!(!is_current_ring_bearer(&state, PlayerId(1), stolen));

    state.layers_dirty = false;
    assert!(normalize_ring_bearers(&mut state));
    assert!(state.layers_dirty);
    assert_eq!(state.ring_bearer.get(&PlayerId(1)), None);
    assert_eq!(ring_bearer_for(&state, PlayerId(0)), Some(mine));
    assert!(!normalize_ring_bearers(&mut state));
}

#[test]
fn clearing_a_bearer_leaves_the_others() {
    let mut state = GameState::new_two_player(42);
    let a = creature(&mut state, PlayerId(0), 2);
    let b = creature(&mut state, PlayerId(1), 2);
    state.ring_bearer.insert(PlayerId(0), Some(a));
    state.ring_bearer.insert(PlayerId(1), Some(b));
    state.layers_dirty = false;
    clear_ring_bearer_if_object(&mut state, a);
    assert_eq!(ring_bearer_for(&state, PlayerId(0)), None);
    assert_eq!(ring_bearer_for(&state, PlayerId(1)), Some(b));
    assert!(state.layers_dirty);
    state.layers_dirty = false;
    clear_ring_bearer_if_object(&mut state, a);
    assert!(!state.layers_dirty);
}

#[test]
fn a_team_leaves_together_and_each_departure_is_told_once() {
    let mut state = GameState::new(FormatConfig::two_headed_giant(), 4, 42);
    let owned: Vec<ObjectId> = (0..4).map(|p| creature(&mut state, PlayerId(p), 1)).collect();
    for p in 0..4 {
        state.stack.push(StackEntry {
            id: ObjectId(100 + p as u64),
            source_id: owned[p as usize],
            controller: PlayerId(p),
            kind: StackEntryKind::KeywordAction { source_id: owned[p as usize] },
        });
    }
    let mut events = Vec::new();
    eliminate_player(&mut state, PlayerId(2), &mut events);
    let gone: Vec<PlayerId> = events
        .iter()
        .filter_map(|e| match e {
            GameEvent::PlayerEliminated { player_id } => Some(*player_id),
            _ => None,
        })
        .collect();
    assert_eq!(gone, vec![PlayerId(2), PlayerId(3)]);
    let left: Vec<bool> = state.players.iter().map(|p| p.is_eliminated).collect();
    assert_eq!(left, vec![false, false, true, true]);
    assert_eq!(state.battlefield, vec![owned[0], owned[1]]);
    let stacked: Vec<PlayerId> = state.stack.iter().map(|e| e.controller).collect();
    assert_eq!(stacked, vec![PlayerId(0), PlayerId(1)]);
}

#[test]
fn without_teams_a_player_leaves_alone() {
    let mut state = GameState::new(FormatConfig::free_for_all(), 4, 42);
    let mut events = Vec::new();
    eliminate_player(&mut state, PlayerId(2), &mut events);
    let left: Vec<bool> = state.players.iter().map(|p| p.is_eliminated).collect();
    assert_eq!(left, vec![false, false, true, false]);
}

/// The effect of the room that a marker is moved into.
fn entered(dungeon: DungeonId, room: u8) -> ResolvedAbility {
    let mut state = GameState::new_two_player(42);
    handle_choose_room(&mut state, PlayerId(0), dungeon, room, &mut Vec::new());
    let trigger = state.pending_trigger.unwrap();
    assert_eq!(trigger.controller, PlayerId(0));
    assert_eq!(trigger.ability.source_id, trigger.source_id);
    assert_eq!(trigger.target_constraints, List::new());
    trigger.ability
}

fn number(value: i32) -> QuantityExpr {
    QuantityExpr::Fixed { value }
}

#[test]
fn a_room_triggers_the_ability_that_it_has() {
    let cave = entered(DungeonId::LostMineOfPhandelver, 0);
    assert_eq!(*cave.effect, Effect::Scry { count: number(1) });
    let temple = entered(DungeonId::LostMineOfPhandelver, 6);
    assert_eq!(
        *temple.effect,
        Effect::Draw { count: number(1), target: TargetFilter::Controller }
    );
    let portal = entered(DungeonId::DungeonOfTheMadMage, 0);
    assert_eq!(
        *portal.effect,
        Effect::GainLife { amount: number(1), player: GainLifePlayer::Controller }
    );
    let trap = entered(DungeonId::Undercity, 3);
    assert_eq!(
        *trap.effect,
        Effect::LoseLife { amount: number(5), target: Some(TargetFilter::Player) }
    );
    assert_eq!(*entered(DungeonId::Undercity, 0).effect, Effect::SearchBasicLand);
}

#[test]
fn rooms_that_do_several_things_do_them_one_after_the_other() {
    let pool = entered(DungeonId::LostMineOfPhandelver, 4);
    assert_eq!(pool.player_scope, Some(PlayerFilter::Opponent));
    assert_eq!(*pool.effect, Effect::LoseLife { amount: number(1), target: None });
    let gain = pool.sub_ability.as_ref().unwrap();
    assert_eq!(
        *gain.effect,
        Effect::GainLife { amount: number(1), player: GainLifePlayer::Controller }
    );

    let mut kinds = Vec::new();
    let mut next = entered(DungeonId::TombOfAnnihilation, 2).sub_ability;
    while let Some(ability) = next {
        let Effect::Sacrifice { target: TargetFilter::Typed(typed), .. } = &*ability.effect else {
            panic!("expected a sacrifice");
        };
        kinds.push(format!("{:?}", typed.type_filters.get(0).unwrap()));
        next = ability.sub_ability.clone();
    }
    assert_eq!(kinds, vec!["Artifact", "Creature", "Land"]);
}

#[test]
fn rooms_name_their_tokens_their_costs_and_how_long_they_last() {
    let Effect::Token(atropal) = &*entered(DungeonId::TombOfAnnihilation, 4).effect else {
        panic!("expected a token");
    };
    assert_eq!(atropal.name.read(), "The Atropal");
    assert_eq!(atropal.power, PtValue::Fixed(4));
    assert!(atropal.supertypes.contains(&Supertype::Legendary));

    let veils = entered(DungeonId::TombOfAnnihilation, 1);
    assert_eq!(veils.player_scope, Some(PlayerFilter::All));
    let unless = veils.unless_pay.as_ref().unwrap();
    assert_eq!(unless.payer, TargetFilter::ScopedPlayer);
    assert!(matches!(unless.cost, AbilityCost::Discard { .. }));

    let cavern = entered(DungeonId::LostMineOfPhandelver, 5);
    assert_eq!(cavern.duration, Some(Duration::UntilYourNextTurn));
    assert!(matches!(
        &*cavern.effect,
        Effect::Pump { power: PtValue::Fixed(-4), toughness: PtValue::Fixed(0), .. }
    ));
}
