//! Players leaving the game.

use engine::elimination::eliminate_player;
use engine::events::GameEvent;
use engine::ids::{CardId, PlayerId, Zone};
use engine::state::{
    CastingVariant, FormatConfig, GameState, StackEntry, StackEntryKind, WaitingFor,
};
use engine::text::Text;
use engine::zones::create_object;

fn setup_two_player() -> GameState {
    let mut state = GameState::new_two_player(42);
    state.turn_number = 1;
    state
}

fn setup_three_player() -> GameState {
    let mut state = GameState::new(FormatConfig::free_for_all(), 3, 42);
    state.turn_number = 1;
    state
}

fn setup_2hg() -> GameState {
    let mut state = GameState::new(FormatConfig::two_headed_giant(), 4, 42);
    state.turn_number = 1;
    state
}

// --- 2-player elimination (immediate GameOver) ---

#[test]
fn two_player_elimination_ends_game() {
    let mut state = setup_two_player();
    let mut events = Vec::new();

    eliminate_player(&mut state, PlayerId(0), &mut events);

    assert!(state.players[0].is_eliminated);
    assert!(matches!(
        state.waiting_for,
        WaitingFor::GameOver {
            winner: Some(PlayerId(1))
        }
    ));
    assert!(events.iter().any(|e| matches!(
        e,
        GameEvent::PlayerEliminated {
            player_id: PlayerId(0)
        }
    )));
    assert!(events.iter().any(|e| matches!(
        e,
        GameEvent::GameOver {
            winner: Some(PlayerId(1))
        }
    )));
}

// --- 3-player elimination (game continues) ---

#[test]
fn three_player_elimination_game_continues() {
    let mut state = setup_three_player();
    let mut events = Vec::new();

    eliminate_player(&mut state, PlayerId(1), &mut events);

    assert!(state.players[1].is_eliminated);
    assert!(events.iter().any(|e| matches!(
        e,
        GameEvent::PlayerEliminated {
            player_id: PlayerId(1)
        }
    )));
    // Game should NOT be over — 2 players still alive
    assert!(!matches!(state.waiting_for, WaitingFor::GameOver { .. }));
}

#[test]
fn three_player_two_eliminations_ends_game() {
    let mut state = setup_three_player();
    let mut events = Vec::new();

    eliminate_player(&mut state, PlayerId(1), &mut events);
    eliminate_player(&mut state, PlayerId(2), &mut events);

    // Now only P0 remains — game over
    assert!(matches!(
        state.waiting_for,
        WaitingFor::GameOver {
            winner: Some(PlayerId(0))
        }
    ));
}

// --- Elimination cleanup ---

#[test]
fn elimination_removes_spells_from_stack() {
    let mut state = setup_two_player();
    let obj_id = create_object(
        &mut state,
        CardId(1),
        PlayerId(0),
        Text::new("Lightning Bolt".to_string()),
        Zone::Stack,
    );
    state.stack.push(StackEntry {
        id: obj_id,
        source_id: obj_id,
        controller: PlayerId(0),
        kind: StackEntryKind::Spell {
            card_id: CardId(1),
            ability: None,
            casting_variant: CastingVariant::Normal,
            actual_mana_spent: 0,
        },
    });

    let mut events = Vec::new();
    eliminate_player(&mut state, PlayerId(0), &mut events);

    assert!(state.stack.is_empty());
}

#[test]
fn elimination_exiles_owned_permanents() {
    let mut state = setup_three_player();
    let id = create_object(
        &mut state,
        CardId(1),
        PlayerId(1),
        Text::new("Bear".to_string()),
        Zone::Battlefield,
    );

    let mut events = Vec::new();
    eliminate_player(&mut state, PlayerId(1), &mut events);

    // Permanent should be exiled, not on battlefield
    assert!(!state.battlefield.contains(&id));
    assert!(state.exile.contains(&id));
}

#[test]
fn elimination_skips_already_eliminated_player() {
    let mut state = setup_three_player();
    let mut events = Vec::new();

    eliminate_player(&mut state, PlayerId(1), &mut events);
    let event_count = events.len();

    // Try to eliminate again
    eliminate_player(&mut state, PlayerId(1), &mut events);

    // No new events should be emitted
    assert_eq!(events.len(), event_count);
}

// --- Simultaneous elimination ---

#[test]
fn simultaneous_elimination_multiple_players() {
    let mut state = setup_three_player();
    let mut events = Vec::new();

    // Eliminate P1 and P2 simultaneously
    eliminate_player(&mut state, PlayerId(1), &mut events);
    // After P1 eliminated, game still goes (P0 and P2 alive)
    // Now eliminate P2
    eliminate_player(&mut state, PlayerId(2), &mut events);

    assert!(state.players[1].is_eliminated);
    assert!(state.players[2].is_eliminated);
    assert!(matches!(
        state.waiting_for,
        WaitingFor::GameOver {
            winner: Some(PlayerId(0))
        }
    ));
}

// --- 2HG team elimination ---

#[test]
fn two_hg_eliminating_one_teammate_eliminates_both() {
    let mut state = setup_2hg();
    let mut events = Vec::new();

    // Eliminate P0 (team A)
    eliminate_player(&mut state, PlayerId(0), &mut events);

    // Both P0 and P1 (team A) should be eliminated
    assert!(state.players[0].is_eliminated);
    assert!(state.players[1].is_eliminated);

    // Team B wins
    assert!(matches!(
        state.waiting_for,
        WaitingFor::GameOver { winner: Some(_) }
    ));
}

#[test]
fn two_hg_team_b_elimination() {
    let mut state = setup_2hg();
    let mut events = Vec::new();

    // Eliminate P2 (team B)
    eliminate_player(&mut state, PlayerId(2), &mut events);

    // Both P2 and P3 (team B) should be eliminated
    assert!(state.players[2].is_eliminated);
    assert!(state.players[3].is_eliminated);

    // Team A wins (P0 is first living player)
    assert!(matches!(
        state.waiting_for,
        WaitingFor::GameOver {
            winner: Some(PlayerId(0))
        }
    ));
}

#[test]
fn eliminated_player_added_to_eliminated_list() {
    let mut state = setup_three_player();
    let mut events = Vec::new();

    eliminate_player(&mut state, PlayerId(1), &mut events);

    assert!(state.eliminated_players.contains(&PlayerId(1)));
}

// --- Initiative transfer on elimination (CR 725.4) ---

#[test]
fn initiative_transfers_on_elimination() {
    let mut state = setup_three_player();
    state.active_player = PlayerId(0);
    state.initiative = Some(PlayerId(1));
    let mut events = Vec::new();

    eliminate_player(&mut state, PlayerId(1), &mut events);

    // CR 725.4: Active player (P0) takes the initiative.
    assert_eq!(state.initiative, Some(PlayerId(0)));
    assert!(events.iter().any(|e| matches!(
        e,
        GameEvent::InitiativeTaken {
            player_id: PlayerId(0)
        }
    )));
    // CR 725.2: Venture into Undercity should be on the stack.
    assert!(
        !state.stack.is_empty(),
        "venture trigger should be pushed to stack"
    );
}

#[test]
fn initiative_transfers_to_next_when_active_leaving() {
    let mut state = setup_three_player();
    state.active_player = PlayerId(0);
    state.initiative = Some(PlayerId(0));
    let mut events = Vec::new();

    eliminate_player(&mut state, PlayerId(0), &mut events);

    // CR 725.4: Active player is leaving, so next living player in turn order gets it.
    // P1 is next after P0 in a 3-player game.
    assert_eq!(state.initiative, Some(PlayerId(1)));
    assert!(events.iter().any(|e| matches!(
        e,
        GameEvent::InitiativeTaken {
            player_id: PlayerId(1)
        }
    )));
}

#[test]
fn initiative_transfers_in_two_player_game() {
    let mut state = setup_two_player();
    state.active_player = PlayerId(0);
    state.initiative = Some(PlayerId(0));
    let mut events = Vec::new();

    eliminate_player(&mut state, PlayerId(0), &mut events);

    // CR 725.4: P1 is still alive, so they get initiative (game ends immediately after).
    assert_eq!(state.initiative, Some(PlayerId(1)));
    assert!(matches!(
        state.waiting_for,
        WaitingFor::GameOver {
            winner: Some(PlayerId(1))
        }
    ));
}
