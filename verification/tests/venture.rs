//! Ventures into dungeons, and the initiative.

use engine::ability::{Effect, ResolvedAbility};
use engine::effects::venture::{resolve, resolve_take_initiative, resolve_venture_into};
use engine::events::GameEvent;
use engine::ids::{DungeonId, ObjectId, PlayerId};
use engine::list::List;
use engine::state::{DungeonProgress, GameState, WaitingFor};

fn put_in_room(state: &mut GameState, player: PlayerId, dungeon: Option<DungeonId>, room: u8) {
    state.dungeon_progress.insert(
        player,
        DungeonProgress { current_dungeon: dungeon, current_room: room, completed: List::new() },
    );
}

fn make_venture_ability(player: PlayerId) -> ResolvedAbility {
    ResolvedAbility::new(Effect::VentureIntoDungeon, Vec::new(), ObjectId(99), player)
}

#[test]
fn venture_with_no_dungeon_offers_afr_trio() {
    let mut state = GameState::new_two_player(42);
    let ability = make_venture_ability(PlayerId(0));
    let mut events = Vec::new();

    resolve(&mut state, &ability, &mut events).unwrap();

    // Should present choice of 3 AFR dungeons.
    match &state.waiting_for {
        WaitingFor::ChooseDungeon { player, options } => {
            assert_eq!(*player, PlayerId(0));
            assert_eq!(options.len(), 3);
            assert!(!options.contains(&DungeonId::Undercity));
        }
        other => panic!("Expected ChooseDungeon, got {other:?}"),
    }
}

#[test]
fn venture_into_undercity_auto_selects() {
    let mut state = GameState::new_two_player(42);
    let ability = ResolvedAbility::new(
        Effect::VentureInto {
            dungeon: DungeonId::Undercity,
        },
        Vec::new(),
        ObjectId(99),
        PlayerId(0),
    );
    let mut events = Vec::new();

    resolve_venture_into(&mut state, &ability, DungeonId::Undercity, &mut events).unwrap();

    // Undercity is the only option → auto-selected, marker on room 0.
    let progress = state.dungeon_progress.get(&PlayerId(0)).unwrap();
    assert_eq!(progress.current_dungeon, Some(DungeonId::Undercity));
    assert_eq!(progress.current_room, 0);

    // Must emit RoomEntered for room 0 (Secret Entrance).
    assert!(events.iter().any(|e| matches!(
        e,
        GameEvent::RoomEntered {
            room_index: 0,
            dungeon: DungeonId::Undercity,
            ..
        }
    )));

    // Must queue a room trigger (pending_trigger set).
    assert!(state.pending_trigger.is_some());
}

#[test]
fn venture_advances_through_linear_path() {
    let mut state = GameState::new_two_player(42);
    let player = PlayerId(0);

    // Set up: already in Dungeon of the Mad Mage, room 0 (Yawning Portal).
    // Room 0 → [1] (single path), should auto-advance.
    put_in_room(&mut state, player, Some(DungeonId::DungeonOfTheMadMage), 0);

    let ability = make_venture_ability(player);
    let mut events = Vec::new();

    resolve(&mut state, &ability, &mut events).unwrap();

    // Should auto-advance to room 1 (Dungeon Level).
    let progress = state.dungeon_progress.get(&player).unwrap();
    assert_eq!(progress.current_room, 1);
    assert!(events
        .iter()
        .any(|e| matches!(e, GameEvent::RoomEntered { room_index: 1, .. })));
}

#[test]
fn venture_at_branch_presents_choice() {
    let mut state = GameState::new_two_player(42);
    let player = PlayerId(0);

    // Set up: in Lost Mine, room 0 (Cave Entrance → [1, 2]).
    put_in_room(&mut state, player, Some(DungeonId::LostMineOfPhandelver), 0);

    let ability = make_venture_ability(player);
    let mut events = Vec::new();

    resolve(&mut state, &ability, &mut events).unwrap();

    match &state.waiting_for {
        WaitingFor::ChooseDungeonRoom {
            player: p,
            dungeon,
            options,
            option_names,
        } => {
            assert_eq!(*p, player);
            assert_eq!(*dungeon, DungeonId::LostMineOfPhandelver);
            assert_eq!(options.to_vec(), vec![1, 2]);
            assert_eq!(option_names.to_vec(), vec!["Goblin Lair", "Mine Tunnels"]);
        }
        other => panic!("Expected ChooseDungeonRoom, got {other:?}"),
    }
}

#[test]
fn venture_at_bottommost_completes_and_offers_new_dungeon() {
    let mut state = GameState::new_two_player(42);
    let player = PlayerId(0);

    // Set up: in Lost Mine, room 6 (Temple of Dumathoin — bottommost).
    put_in_room(&mut state, player, Some(DungeonId::LostMineOfPhandelver), 6);

    let ability = make_venture_ability(player);
    let mut events = Vec::new();

    resolve(&mut state, &ability, &mut events).unwrap();

    // Should have completed Lost Mine.
    let progress = state.dungeon_progress.get(&player).unwrap();
    assert!(progress
        .completed
        .contains(&DungeonId::LostMineOfPhandelver));

    // Should have emitted DungeonCompleted.
    assert!(events.iter().any(|e| matches!(
        e,
        GameEvent::DungeonCompleted {
            dungeon: DungeonId::LostMineOfPhandelver,
            ..
        }
    )));

    // Should now offer choice for a new dungeon (normal venture → AFR trio).
    match &state.waiting_for {
        WaitingFor::ChooseDungeon { options, .. } => {
            assert_eq!(options.len(), 3);
        }
        other => panic!("Expected ChooseDungeon after completion, got {other:?}"),
    }
}

#[test]
fn take_initiative_sets_designation_and_ventures() {
    let mut state = GameState::new_two_player(42);
    let ability =
        ResolvedAbility::new(Effect::TakeTheInitiative, Vec::new(), ObjectId(99), PlayerId(0));
    let mut events = Vec::new();

    resolve_take_initiative(&mut state, &ability, &mut events).unwrap();

    // Initiative should be set.
    assert_eq!(state.initiative, Some(PlayerId(0)));

    // Should have ventured into Undercity (auto-selected).
    let progress = state.dungeon_progress.get(&PlayerId(0)).unwrap();
    assert_eq!(progress.current_dungeon, Some(DungeonId::Undercity));
    assert_eq!(progress.current_room, 0);

    // Should have emitted InitiativeTaken.
    assert!(events
        .iter()
        .any(|e| matches!(e, GameEvent::InitiativeTaken { .. })));
}

#[test]
fn take_initiative_retake_still_ventures() {
    let mut state = GameState::new_two_player(42);
    let player = PlayerId(0);

    // Already has initiative and is in Undercity at room 0.
    state.initiative = Some(player);
    put_in_room(&mut state, player, Some(DungeonId::Undercity), 0);

    let ability = ResolvedAbility::new(Effect::TakeTheInitiative, Vec::new(), ObjectId(99), player);
    let mut events = Vec::new();

    resolve_take_initiative(&mut state, &ability, &mut events).unwrap();

    // CR 725.5: Re-taking initiative still triggers venture.
    // Undercity room 0 → [1, 2] (branch), so should present choice.
    match &state.waiting_for {
        WaitingFor::ChooseDungeonRoom { dungeon, .. } => {
            assert_eq!(*dungeon, DungeonId::Undercity);
        }
        other => panic!("Expected ChooseDungeonRoom on retake, got {other:?}"),
    }
}
