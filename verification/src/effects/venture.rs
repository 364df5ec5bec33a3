//! Venturing into dungeons, and taking the initiative (CR 701.49, CR 725).

use crate::ability::ResolvedAbility;
use crate::dungeon::rooms::{room_ability, room_effects};
use crate::dungeon::{
    available_dungeons, dungeon_name, dungeon_options, dungeon_sentinel_id, dungeon_title,
    is_bottommost, next_rooms, room_count, room_name, room_title, rooms_after, sentinel,
    VentureSource,
};
use crate::effects::EffectError;
use crate::events::{EffectKind, GameEvent};
use crate::id_map::at;
use crate::ids::{DungeonId, PlayerId};
use crate::list::{list_of, List};
use crate::state::{DungeonProgress, Game, GameState, Play, WaitingFor};
use crate::text::Text;
use crate::triggers::PendingTrigger;
use vstd::prelude::*;

verus! {

/// How far a player has come, or nowhere for one who has not ventured yet.
pub open spec fn progress_of(g: Game, player: PlayerId) -> DungeonProgress {
    match at(g.dungeon_progress, player) {
        None => DungeonProgress::none(),
        Some(p) => p,
    }
}

fn find_progress(state: &GameState, player: PlayerId) -> (r: DungeonProgress)
    ensures
        r == progress_of(state@, player),
{
    match state.dungeon_progress.get(&player) {
        None => DungeonProgress::default(),
        Some(p) => p.clone(),
    }
}

pub open spec fn with_progress(g: Game, player: PlayerId, progress: DungeonProgress) -> Game {
    Game { dungeon_progress: g.dungeon_progress.insert(player, progress), ..g }
}

/// Whether the marker of a player stands in a room of its dungeon.
pub open spec fn in_a_room(p: DungeonProgress) -> bool {
    p.current_dungeon matches Some(dungeon) ==> p.current_room < room_count(dungeon)
}

pub open spec fn room_event(player: PlayerId, dungeon: DungeonId, room: u8) -> GameEvent {
    GameEvent::RoomEntered {
        player_id: player,
        dungeon,
        room_index: room,
        room_name: room_title(dungeon, room),
    }
}

/// The trigger of a room that a player's marker has moved into (CR 309.4c).
pub open spec fn room_trigger(player: PlayerId, dungeon: DungeonId, room: u8) -> PendingTrigger {
    PendingTrigger {
        source_id: sentinel(player),
        controller: player,
        condition: None,
        ability: room_ability(dungeon, room, sentinel(player), player),
        timestamp: 0,
        target_constraints: list_of(seq![]),
        distribute: None,
        trigger_event: Some(room_event(player, dungeon, room)),
        modal: None,
        mode_abilities: None,
        description: Some(Text::Titled(dungeon_title(dungeon), room_title(dungeon, room))),
        may_trigger_origin: None,
    }
}

/// CR 309.4c: Queue a room's triggered ability onto the pending trigger list.
/// Room abilities are triggered abilities ("When you move your venture marker
/// into this room, [effect].") and go on the stack.
///
/// Uses a synthetic ObjectId (dungeon sentinel) so that pending room abilities
/// can be told apart when dungeon completion is checked (CR 704.5t).
fn queue_room_trigger(state: &mut GameState, player: PlayerId, dungeon: DungeonId, room: u8)
    requires
        room < room_count(dungeon),
        old(state).pending_trigger is None,
    ensures
        final(state)@ == (Game {
            pending_trigger: Some(room_trigger(player, dungeon, room)),
            ..old(state)@
        }),
{
    let source_id = dungeon_sentinel_id(player);
    let name = room_name(dungeon, room);
    // CR 309.4c: Build the room's actual effect from the dungeon definition.
    let (room_ability, target_constraints) = room_effects(dungeon, room, source_id, player);
    state.pending_trigger = Some(
        PendingTrigger {
            source_id,
            controller: player,
            condition: None,
            ability: room_ability,
            timestamp: 0,
            target_constraints,
            distribute: None,
            trigger_event: Some(
                GameEvent::RoomEntered {
                    player_id: player,
                    dungeon,
                    room_index: room,
                    room_name: name,
                },
            ),
            modal: None,
            mode_abilities: None,
            description: Some(Text::Titled(dungeon_name(dungeon), name)),
            may_trigger_origin: None,
        },
    );
}

/// A player's marker moved into a room: the room's trigger waits, and an event tells of it.
pub open spec fn room_entered(
    p: Play,
    player: PlayerId,
    progress: DungeonProgress,
    dungeon: DungeonId,
    room: u8,
) -> Play {
    Play {
        game: Game {
            pending_trigger: Some(room_trigger(player, dungeon, room)),
            ..with_progress(p.game, player, progress)
        },
        events: p.events.push(room_event(player, dungeon, room)),
    }
}

/// A dungeon begun, in its topmost room.
pub open spec fn dungeon_begun(p: Play, player: PlayerId, dungeon: DungeonId) -> Play {
    room_entered(
        p,
        player,
        DungeonProgress {
            current_dungeon: Some(dungeon),
            current_room: 0,
            ..progress_of(p.game, player)
        },
        dungeon,
        0,
    )
}

/// Start a dungeon, enter room 0 (topmost), emit RoomEntered, and queue the room trigger.
/// CR 309.4a: Marker placed on topmost room.
/// CR 309.4c: Room ability triggers on entry.
fn start_dungeon_and_enter(
    state: &mut GameState,
    player: PlayerId,
    dungeon: DungeonId,
    events: &mut Vec<GameEvent>,
)
    requires
        old(state).pending_trigger is None,
    ensures
        (Play { game: final(state)@, events: final(events)@ }) == dungeon_begun(
            Play { game: old(state)@, events: old(events)@ },
            player,
            dungeon,
        ),
{
    let mut progress = find_progress(state, player);
    progress.current_dungeon = Some(dungeon);
    progress.current_room = 0;
    state.dungeon_progress.insert(player, progress);
    events.push(
        GameEvent::RoomEntered {
            player_id: player,
            dungeon,
            room_index: 0,
            room_name: room_name(dungeon, 0),
        },
    );
    queue_room_trigger(state, player, dungeon, 0);
}

/// Dungeons completed, with one more, unless it has been completed before.
pub open spec fn with_completed(completed: List<DungeonId>, dungeon: DungeonId) -> List<DungeonId> {
    if completed@.contains(dungeon) {
        completed
    } else {
        list_of(completed@.push(dungeon))
    }
}

/// A dungeon completed: the marker is off it, and its completion is on record.
pub open spec fn dungeon_completed(p: Play, player: PlayerId, dungeon: DungeonId) -> Play {
    Play {
        game: with_progress(
            p.game,
            player,
            DungeonProgress {
                current_dungeon: None,
                current_room: 0,
                completed: with_completed(progress_of(p.game, player).completed, dungeon),
            },
        ),
        events: p.events.push(GameEvent::DungeonCompleted { player_id: player, dungeon }),
    }
}

/// CR 309.7: Complete a dungeon: remove from game, record completion.
fn complete_dungeon(
    state: &mut GameState,
    player: PlayerId,
    dungeon: DungeonId,
    events: &mut Vec<GameEvent>,
)
    ensures
        (Play { game: final(state)@, events: final(events)@ }) == dungeon_completed(
            Play { game: old(state)@, events: old(events)@ },
            player,
            dungeon,
        ),
{
    let mut progress = find_progress(state, player);
    progress.current_dungeon = None;
    progress.current_room = 0;
    if !progress.completed.contains(&dungeon) {
        progress.completed.push(dungeon);
    }
    state.dungeon_progress.insert(player, progress);
    events.push(GameEvent::DungeonCompleted { player_id: player, dungeon });
}

/// A new dungeon: begun where only one can be, else to be chosen.
pub open spec fn dungeon_sought(p: Play, player: PlayerId, source: VentureSource) -> Play {
    let options = dungeon_options(source);
    if options.len() == 1 {
        dungeon_begun(p, player, options[0])
    } else {
        Play {
            game: Game {
                waiting_for: WaitingFor::ChooseDungeon { player, options: list_of(options) },
                ..with_progress(p.game, player, progress_of(p.game, player))
            },
            ..p
        }
    }
}

/// CR 701.49a: Choose a dungeon and enter its topmost room.
fn enter_new_dungeon(
    state: &mut GameState,
    player: PlayerId,
    source: VentureSource,
    events: &mut Vec<GameEvent>,
) -> (r: Result<(), EffectError>)
    requires
        source is Specific ==> old(state).pending_trigger is None,
    ensures
        r is Ok,
        (Play { game: final(state)@, events: final(events)@ }) == dungeon_sought(
            Play { game: old(state)@, events: old(events)@ },
            player,
            source,
        ),
{
    let options = available_dungeons(source);
    if options.len() == 1 {
        // Auto-select: only one dungeon available (e.g., initiative leads into Undercity).
        start_dungeon_and_enter(state, player, options[0], events);
    } else {
        // Multiple options: ask the player to choose.
        let progress = find_progress(state, player);
        state.dungeon_progress.insert(player, progress);
        state.waiting_for = WaitingFor::ChooseDungeon { player, options: List::from_vec(options) };
    }
    Ok(())
}

/// The marker moved on: into the next room where there is one way, else to be chosen.
pub open spec fn advanced(p: Play, player: PlayerId, dungeon: DungeonId, next: Seq<u8>) -> Play {
    if next.len() == 1 {
        room_entered(
            p,
            player,
            DungeonProgress { current_room: next[0], ..progress_of(p.game, player) },
            dungeon,
            next[0],
        )
    } else {
        Play {
            game: Game {
                waiting_for: WaitingFor::ChooseDungeonRoom {
                    player,
                    dungeon,
                    options: list_of(next),
                    option_names: list_of(
                        Seq::new(next.len(), |i: int| room_title(dungeon, next[i])),
                    ),
                },
                ..p.game
            },
            ..p
        }
    }
}

/// CR 701.49b / CR 309.5a: Advance to the next room.
/// If there's one option, auto-advance. If multiple, present choice.
fn advance_to_room(
    state: &mut GameState,
    player: PlayerId,
    dungeon: DungeonId,
    next: Vec<u8>,
    events: &mut Vec<GameEvent>,
) -> (r: Result<(), EffectError>)
    requires
        next@.len() == 1 ==> old(state).pending_trigger is None,
        forall|i: int| 0 <= i < next@.len() ==> #[trigger] next@[i] < room_count(dungeon),
    ensures
        r is Ok,
        (Play { game: final(state)@, events: final(events)@ }) == advanced(
            Play { game: old(state)@, events: old(events)@ },
            player,
            dungeon,
            next@,
        ),
{
    if next.len() == 1 {
        // Single path: auto-advance.
        let room: u8 = next[0];
        let mut progress = find_progress(state, player);
        progress.current_room = room;
        state.dungeon_progress.insert(player, progress);
        events.push(
            GameEvent::RoomEntered {
                player_id: player,
                dungeon,
                room_index: room,
                room_name: room_name(dungeon, room),
            },
        );
        // CR 309.4c: Queue room trigger.
        queue_room_trigger(state, player, dungeon, room);
    } else {
        // Branch point: ask the player to choose.
        let mut option_names: Vec<&'static str> = Vec::new();
        let mut i: usize = 0;
        while i < next.len()
            invariant
                i <= next@.len(),
                option_names@.len() == i,
                forall|j: int| 0 <= j < next@.len() ==> #[trigger] next@[j] < room_count(dungeon),
                forall|j: int|
                    0 <= j < i ==> #[trigger] option_names@[j] == room_title(dungeon, next@[j]),
            decreases next@.len() - i,
        {
            option_names.push(room_name(dungeon, next[i]));
            i = i + 1;
        }
        assert(option_names@ =~= Seq::new(next@.len(), |j: int| room_title(dungeon, next@[j])));
        state.waiting_for = WaitingFor::ChooseDungeonRoom {
            player,
            dungeon,
            options: List::from_vec(next),
            option_names: List::from_vec(option_names),
        };
    }
    Ok(())
}

/// A player's venture (CR 701.49): into a dungeon, further down one, or out of one at its end and
/// into the next.
pub open spec fn ventured(p: Play, player: PlayerId, source: VentureSource) -> Play {
    let progress = progress_of(p.game, player);
    match progress.current_dungeon {
        None => dungeon_sought(p, player, source),
        Some(dungeon) => {
            let next = rooms_after(dungeon, progress.current_room);
            if next.len() == 0 {
                dungeon_sought(dungeon_completed(p, player, dungeon), player, source)
            } else {
                advanced(p, player, dungeon, next)
            }
        },
    }
}

/// Whether a venture moves the marker into a room without anyone having to choose.
pub open spec fn enters_at_once(g: Game, player: PlayerId, source: VentureSource) -> bool {
    let progress = progress_of(g, player);
    match progress.current_dungeon {
        None => source is Specific,
        Some(dungeon) => {
            let next = rooms_after(dungeon, progress.current_room);
            (next.len() == 0 && source is Specific) || next.len() == 1
        },
    }
}

/// Core venture logic implementing CR 701.49a-c.
///
/// Three cases:
/// 1. No active dungeon: choose a dungeon (or auto-select if only one option)
/// 2. Active dungeon, not at bottommost: advance to next room
/// 3. Active dungeon, at bottommost: complete dungeon, then choose a new one (CR 701.49c)
fn resolve_venture_for_player(
    state: &mut GameState,
    player: PlayerId,
    source: VentureSource,
    events: &mut Vec<GameEvent>,
) -> (r: Result<(), EffectError>)
    requires
        enters_at_once(old(state)@, player, source) ==> old(state).pending_trigger is None,
    ensures
        r is Ok,
        (Play { game: final(state)@, events: final(events)@ }) == ventured(
            Play { game: old(state)@, events: old(events)@ },
            player,
            source,
        ),
{
    let progress = find_progress(state, player);
    match progress.current_dungeon {
        // CR 701.49a: No active dungeon: choose one from outside the game.
        None => enter_new_dungeon(state, player, source, events),
        Some(dungeon) => {
            let room: u8 = progress.current_room;
            if is_bottommost(dungeon, room) {
                // CR 701.49c: At bottommost room: complete dungeon, then choose new one.
                complete_dungeon(state, player, dungeon, events);
                enter_new_dungeon(state, player, source, events)
            } else {
                // CR 701.49b: Advance to the next room.
                advance_to_room(state, player, dungeon, next_rooms(dungeon, room), events)
            }
        },
    }
}

/// CR 701.49: Venture into the dungeon.
pub fn resolve(
    state: &mut GameState,
    ability: &ResolvedAbility,
    events: &mut Vec<GameEvent>,
) -> (r: Result<(), EffectError>)
    requires
        enters_at_once(old(state)@, ability.controller, VentureSource::Normal) ==> old(
            state,
        ).pending_trigger is None,
    ensures
        r is Ok,
        (Play { game: final(state)@, events: final(events)@ }) == ventured(
            Play {
                game: old(state)@,
                events: old(events)@.push(
                    GameEvent::EffectResolved {
                        kind: EffectKind::VentureIntoDungeon,
                        source_id: ability.source_id,
                    },
                ),
            },
            ability.controller,
            VentureSource::Normal,
        ),
{
    events.push(
        GameEvent::EffectResolved {
            kind: EffectKind::VentureIntoDungeon,
            source_id: ability.source_id,
        },
    );
    resolve_venture_for_player(state, ability.controller, VentureSource::Normal, events)
}

/// CR 701.49d: Venture into a specific dungeon (e.g., "venture into the Undercity").
pub fn resolve_venture_into(
    state: &mut GameState,
    ability: &ResolvedAbility,
    dungeon: DungeonId,
    events: &mut Vec<GameEvent>,
) -> (r: Result<(), EffectError>)
    requires
        enters_at_once(old(state)@, ability.controller, VentureSource::Specific(dungeon)) ==> old(
            state,
        ).pending_trigger is None,
    ensures
        r is Ok,
        (Play { game: final(state)@, events: final(events)@ }) == ventured(
            Play {
                game: old(state)@,
                events: old(events)@.push(
                    GameEvent::EffectResolved {
                        kind: EffectKind::VentureInto,
                        source_id: ability.source_id,
                    },
                ),
            },
            ability.controller,
            VentureSource::Specific(dungeon),
        ),
{
    events.push(
        GameEvent::EffectResolved {
            kind: EffectKind::VentureInto,
            source_id: ability.source_id,
        },
    );
    resolve_venture_for_player(state, ability.controller, VentureSource::Specific(dungeon), events)
}

/// CR 725.2: Take the initiative.
///
/// CR 725.5: Re-taking initiative when you already have it still triggers
/// the venture into Undercity: the set is idempotent but the venture always fires.
pub fn resolve_take_initiative(
    state: &mut GameState,
    ability: &ResolvedAbility,
    events: &mut Vec<GameEvent>,
) -> (r: Result<(), EffectError>)
    requires
        enters_at_once(
            old(state)@,
            ability.controller,
            VentureSource::Specific(DungeonId::Undercity),
        ) ==> old(state).pending_trigger is None,
    ensures
        r is Ok,
        (Play { game: final(state)@, events: final(events)@ }) == ventured(
            Play {
                game: Game { initiative: Some(ability.controller), ..old(state)@ },
                events: old(events)@.push(
                    GameEvent::InitiativeTaken { player_id: ability.controller },
                ).push(
                    GameEvent::EffectResolved {
                        kind: EffectKind::TakeTheInitiative,
                        source_id: ability.source_id,
                    },
                ),
            },
            ability.controller,
            VentureSource::Specific(DungeonId::Undercity),
        ),
{
    let player = ability.controller;
    // CR 725.3: Only one player can have the initiative at a time.
    state.initiative = Some(player);
    events.push(GameEvent::InitiativeTaken { player_id: player });
    events.push(
        GameEvent::EffectResolved {
            kind: EffectKind::TakeTheInitiative,
            source_id: ability.source_id,
        },
    );
    // CR 725.2: "Whenever a player takes the initiative, that player ventures into Undercity."
    resolve_venture_for_player(
        state,
        player,
        VentureSource::Specific(DungeonId::Undercity),
        events,
    )
}

/// Called by the engine handler when the player chooses a dungeon.
/// Delegates to `start_dungeon_and_enter` which handles state + events + room trigger.
pub fn handle_choose_dungeon(
    state: &mut GameState,
    player: PlayerId,
    dungeon: DungeonId,
    events: &mut Vec<GameEvent>,
)
    requires
        old(state).pending_trigger is None,
    ensures
        (Play { game: final(state)@, events: final(events)@ }) == dungeon_begun(
            Play { game: old(state)@, events: old(events)@ },
            player,
            dungeon,
        ),
{
    start_dungeon_and_enter(state, player, dungeon, events);
}

/// Called by the engine handler when the player chooses a room at a branch point.
pub fn handle_choose_room(
    state: &mut GameState,
    player: PlayerId,
    dungeon: DungeonId,
    room_index: u8,
    events: &mut Vec<GameEvent>,
)
    requires
        room_index < room_count(dungeon),
        old(state).pending_trigger is None,
    ensures
        (Play { game: final(state)@, events: final(events)@ }) == room_entered(
            Play { game: old(state)@, events: old(events)@ },
            player,
            DungeonProgress { current_room: room_index, ..progress_of(old(state)@, player) },
            dungeon,
            room_index,
        ),
{
    let mut progress = find_progress(state, player);
    progress.current_room = room_index;
    state.dungeon_progress.insert(player, progress);
    events.push(
        GameEvent::RoomEntered {
            player_id: player,
            dungeon,
            room_index,
            room_name: room_name(dungeon, room_index),
        },
    );
    // CR 309.4c: Queue room trigger.
    queue_room_trigger(state, player, dungeon, room_index);
}

/// A venture leaves every marker in a room of its dungeon that was in one, and moves no other
/// player's marker.
pub proof fn law_venture_keeps_markers(
    p: Play,
    player: PlayerId,
    source: VentureSource,
    other: PlayerId,
)
    requires
        in_a_room(progress_of(p.game, other)),
    ensures
        in_a_room(progress_of(ventured(p, player, source).game, other)),
        other != player ==> progress_of(ventured(p, player, source).game, other) == progress_of(
            p.game,
            other,
        ),
{
}

/// A venture forgets no dungeon that a player has completed.
pub proof fn law_venture_keeps_completed(
    p: Play,
    player: PlayerId,
    source: VentureSource,
    other: PlayerId,
    dungeon: DungeonId,
)
    requires
        progress_of(p.game, other).completed@.contains(dungeon),
    ensures
        progress_of(ventured(p, player, source).game, other).completed@.contains(dungeon),
{
    let completed = progress_of(p.game, other).completed@;
    let k = choose|k: int| 0 <= k < completed.len() && completed[k] == dungeon;
    assert forall|d: DungeonId| completed.push(d).contains(dungeon) by {
        assert(completed.push(d)[k] == dungeon);
    }
    assert forall|d: DungeonId| list_of(completed.push(d))@.contains(dungeon) by {
        crate::list::lemma_items_of(completed.push(d));
    }
}

/// A venture from the last room of a dungeon puts its completion on record.
pub proof fn law_venture_completes(
    p: Play,
    player: PlayerId,
    source: VentureSource,
    dungeon: DungeonId,
)
    requires
        progress_of(p.game, player).current_dungeon == Some(dungeon),
        rooms_after(dungeon, progress_of(p.game, player).current_room).len() == 0,
    ensures
        progress_of(ventured(p, player, source).game, player).completed@.contains(dungeon),
{
    let completed = progress_of(p.game, player).completed;
    crate::list::lemma_items_of(completed@.push(dungeon));
    assert(completed@.push(dungeon)[completed@.len() as int] == dungeon);
}

/// A venture either moves the marker into a room, whose ability then waits to go on the stack, or
/// asks the player which dungeon or room it is to be (CR 309.4c, CR 309.5a).
pub proof fn law_venture_triggers(p: Play, player: PlayerId, source: VentureSource)
    ensures
        ({
            let r = ventured(p, player, source).game;
            let progress = progress_of(r, player);
            if enters_at_once(p.game, player, source) {
                progress.current_dungeon is Some && r.pending_trigger == Some(
                    room_trigger(player, progress.current_dungeon->0, progress.current_room),
                ) && r.waiting_for == p.game.waiting_for
            } else {
                r.pending_trigger == p.game.pending_trigger && match r.waiting_for {
                    WaitingFor::ChooseDungeon { player: chooser, .. } => chooser == player,
                    WaitingFor::ChooseDungeonRoom { player: chooser, .. } => chooser == player,
                    _ => false,
                }
            }
        }),
{
}

} // verus!
