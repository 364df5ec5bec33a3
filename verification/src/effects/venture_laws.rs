//! Where a venture takes a player's marker, what it asks and what it tells.

use crate::dungeon::{dungeon_options, room_count, room_title, rooms_after, sentinel, VentureSource};
use crate::effects::venture::{
    dungeon_begun, dungeon_completed, progress_of, room_entered, ventured,
};
use crate::events::GameEvent;
use crate::ids::{DungeonId, ObjectId, PlayerId};
use crate::list::lemma_items_of;
use crate::state::{DungeonProgress, Game, Play};
use vstd::prelude::*;

verus! {

/// Whether a way leads from one room of a dungeon down to another, as its card shows it.
pub open spec fn leads(dungeon: DungeonId, from: u8, to: u8) -> bool {
    match dungeon {
        DungeonId::LostMineOfPhandelver => (from == 0 && (to == 1 || to == 2)) || (from == 1 && (to
            == 3 || to == 4)) || (from == 2 && (to == 4 || to == 5)) || (3 <= from <= 5 && to == 6),
        DungeonId::DungeonOfTheMadMage => (from == 0 && to == 1) || (from == 1 && (to == 2 || to
            == 3)) || (2 <= from <= 3 && to == 4) || (from == 4 && (to == 5 || to == 6)) || (5
            <= from <= 6 && to == 7) || (from == 7 && to == 8),
        DungeonId::TombOfAnnihilation => (from == 0 && (to == 1 || to == 2)) || (from == 1 && to
            == 3) || (2 <= from <= 3 && to == 4),
        DungeonId::Undercity => (from == 0 && (to == 1 || to == 2)) || (from == 1 && (to == 3 || to
            == 4)) || (from == 2 && (to == 4 || to == 5)) || (from == 3 && to == 6) || (from == 4
            && (to == 6 || to == 7)) || (from == 5 && to == 7) || (6 <= from <= 7 && to == 8),
    }
}

/// The rooms that come after a room are those that a way leads to, each once, in their order.
pub proof fn law_ways(dungeon: DungeonId, from: u8, to: u8, i: int, j: int)
    ensures
        rooms_after(dungeon, from).contains(to) <==> leads(dungeon, from, to),
        0 <= i < j < rooms_after(dungeon, from).len() ==> rooms_after(dungeon, from)[i]
            < rooms_after(dungeon, from)[j],
{
    let ways = rooms_after(dungeon, from);
    if ways.len() == 1 {
        assert(ways[0] == ways[0]);
        assert(ways.contains(ways[0]));
    }
    if ways.len() == 2 {
        assert(ways.contains(ways[0]));
        assert(ways.contains(ways[1]));
    }
}

/// Every room of a dungeon but the topmost is led to from one above it, and from every room but
/// the bottommost a way leads on (CR 309.4).
pub proof fn law_no_dead_ends(dungeon: DungeonId, room: u8)
    requires
        room < room_count(dungeon),
    ensures
        room > 0 ==> exists|from: u8| from < room && #[trigger] leads(dungeon, from, room),
        room + 1 < room_count(dungeon) ==> exists|to: u8|
            to < room_count(dungeon) && #[trigger] leads(dungeon, room, to),
{
    if room > 0 {
        assert(leads(dungeon, 0, room) || leads(dungeon, 1, room) || leads(dungeon, 2, room)
            || leads(dungeon, 3, room) || leads(dungeon, 4, room) || leads(dungeon, 5, room)
            || leads(dungeon, 6, room) || leads(dungeon, 7, room));
    }
    if room + 1 < room_count(dungeon) {
        assert(leads(dungeon, room, 1) || leads(dungeon, room, 2) || leads(dungeon, room, 3)
            || leads(dungeon, room, 4) || leads(dungeon, room, 5) || leads(dungeon, room, 6)
            || leads(dungeon, room, 7) || leads(dungeon, room, 8));
    }
}

/// The number that stands for a player's dungeon is no other player's.
pub proof fn law_sentinel(a: PlayerId, b: PlayerId)
    ensures
        sentinel(a) == sentinel(b) ==> a == b,
        sentinel(a).0 as int + a.0 == u64::MAX,
{
}

/// A marker that moves into a room is told of with the room, and the room's ability waits, under
/// that player and with that room as what set it off. No other marker moves (CR 309.4c).
pub proof fn law_room_entered(
    p: Play,
    player: PlayerId,
    progress: DungeonProgress,
    dungeon: DungeonId,
    room: u8,
)
    ensures
        ({
            let r = room_entered(p, player, progress, dungeon, room);
            let told = GameEvent::RoomEntered {
                player_id: player,
                dungeon,
                room_index: room,
                room_name: room_title(dungeon, room),
            };
            &&& r.events == p.events.push(told)
            &&& r.game.dungeon_progress == p.game.dungeon_progress.insert(player, progress)
            &&& r.game.pending_trigger is Some
            &&& r.game.pending_trigger->0.controller == player
            &&& r.game.pending_trigger->0.source_id == ObjectId((u64::MAX - player.0) as u64)
            &&& r.game.pending_trigger->0.trigger_event == Some(told)
            &&& r.game.pending_trigger->0.condition is None
            &&& r.game.waiting_for == p.game.waiting_for
            &&& r.game.initiative == p.game.initiative
            &&& r.game.players == p.game.players
            &&& r.game.stack == p.game.stack
        }),
{
}

/// A dungeon begins in its topmost room, and forgets none that was completed (CR 309.4a).
pub proof fn law_begun(p: Play, player: PlayerId, dungeon: DungeonId)
    ensures
        ({
            let r = dungeon_begun(p, player, dungeon);
            let before = p.game.dungeon_progress;
            let after = r.game.dungeon_progress;
            &&& after.contains_key(player)
            &&& after[player].current_dungeon == Some(dungeon)
            &&& after[player].current_room == 0
            &&& before.contains_key(player) ==> after[player].completed
                == before[player].completed
            &&& !before.contains_key(player) ==> after[player].completed@.len() == 0
            &&& forall|q: PlayerId|
                q != player ==> (#[trigger] after.contains_key(q) <==> before.contains_key(q)) && (
                before.contains_key(q) ==> after[q] == before[q])
            &&& r.events.len() == p.events.len() + 1
            &&& r.events.last() == (GameEvent::RoomEntered {
                player_id: player,
                dungeon,
                room_index: 0,
                room_name: room_title(dungeon, 0),
            })
        }),
{
}

/// A player who is in no dungeon ventures into the one named; or chooses, where none is named,
/// among the three that anyone may venture into (CR 701.49a, CR 701.49d).
pub proof fn law_venture_begins(p: Play, player: PlayerId, dungeon: DungeonId)
    requires
        p.game.dungeon_progress.contains_key(player)
            ==> p.game.dungeon_progress[player].current_dungeon is None,
    ensures
        ventured(p, player, VentureSource::Specific(dungeon)) == dungeon_begun(p, player, dungeon),
        ({
            let r = ventured(p, player, VentureSource::Normal);
            &&& r.game.waiting_for is ChooseDungeon
            &&& r.game.waiting_for->ChooseDungeon_player == player
            &&& r.game.waiting_for->ChooseDungeon_options@ == seq![
                DungeonId::LostMineOfPhandelver,
                DungeonId::DungeonOfTheMadMage,
                DungeonId::TombOfAnnihilation,
            ]
            &&& r.events == p.events
            &&& r.game.pending_trigger == p.game.pending_trigger
            &&& progress_of(r.game, player).current_dungeon is None
        }),
{
    lemma_items_of(dungeon_options(VentureSource::Normal));
}

/// A player in a dungeon ventures down the one way there is; where there is more than one, the
/// player chooses among the rooms that they lead to (CR 701.49b, CR 309.5a).
pub proof fn law_venture_goes_on(p: Play, player: PlayerId, source: VentureSource, to: u8)
    requires
        p.game.dungeon_progress.contains_key(player),
        p.game.dungeon_progress[player].current_dungeon is Some,
        leads(
            p.game.dungeon_progress[player].current_dungeon->0,
            p.game.dungeon_progress[player].current_room,
            to,
        ),
    ensures
        ({
            let was = p.game.dungeon_progress[player];
            let dungeon = was.current_dungeon->0;
            let r = ventured(p, player, source);
            let only = forall|other: u8| #[trigger]
                leads(dungeon, was.current_room, other) ==> other == to;
            &&& only ==> {
                &&& r.game.dungeon_progress == p.game.dungeon_progress.insert(
                    player,
                    DungeonProgress { current_room: to, ..was },
                )
                &&& r.events == p.events.push(
                    GameEvent::RoomEntered {
                        player_id: player,
                        dungeon,
                        room_index: to,
                        room_name: room_title(dungeon, to),
                    },
                )
                &&& r.game.waiting_for == p.game.waiting_for
            }
            &&& !only ==> {
                &&& r.game.waiting_for is ChooseDungeonRoom
                &&& r.game.waiting_for->ChooseDungeonRoom_player == player
                &&& r.game.waiting_for->dungeon == dungeon
                &&& forall|other: u8| #[trigger]
                    r.game.waiting_for->ChooseDungeonRoom_options@.contains(other) <==> leads(
                        dungeon,
                        was.current_room,
                        other,
                    )
                &&& r.game.dungeon_progress == p.game.dungeon_progress
                &&& r.events == p.events
                &&& r.game.pending_trigger == p.game.pending_trigger
            }
        }),
{
    let was = p.game.dungeon_progress[player];
    let dungeon = was.current_dungeon->0;
    let ways = rooms_after(dungeon, was.current_room);
    lemma_items_of(ways);
    assert forall|other: u8| ways.contains(other) <==> #[trigger] leads(
        dungeon,
        was.current_room,
        other,
    ) by {
        law_ways(dungeon, was.current_room, other, 0, 1);
    }
    law_ways(dungeon, was.current_room, to, 0, 1);
    if ways.len() == 1 {
        assert(ways[0] == to);
    } else {
        assert(ways.contains(ways[0]));
        assert(ways.contains(ways[1]));
        assert(leads(dungeon, was.current_room, ways[0]));
        assert(leads(dungeon, was.current_room, ways[1]));
    }
}

/// A player in the bottommost room of a dungeon completes it, which is told and goes on record
/// once, and ventures into the next from outside of any (CR 701.49c, CR 309.7).
pub proof fn law_venture_leaves(p: Play, player: PlayerId, source: VentureSource, d: DungeonId)
    requires
        p.game.dungeon_progress.contains_key(player),
        p.game.dungeon_progress[player].current_dungeon is Some,
        p.game.dungeon_progress[player].current_room + 1 == room_count(
            p.game.dungeon_progress[player].current_dungeon->0,
        ),
    ensures
        ({
            let was = p.game.dungeon_progress[player];
            let dungeon = was.current_dungeon->0;
            let out = dungeon_completed(p, player, dungeon);
            let now = out.game.dungeon_progress[player];
            &&& ventured(p, player, source) == ventured(out, player, source)
            &&& out.events == p.events.push(
                GameEvent::DungeonCompleted { player_id: player, dungeon },
            )
            &&& out.game.dungeon_progress.contains_key(player)
            &&& now.current_dungeon is None
            &&& now.current_room == 0
            &&& now.completed@.contains(d) <==> d == dungeon || was.completed@.contains(d)
            &&& was.completed@.no_duplicates() ==> now.completed@.no_duplicates()
            &&& out.game == (Game {
                dungeon_progress: p.game.dungeon_progress.insert(player, now),
                ..p.game
            })
        }),
{
    let was = p.game.dungeon_progress[player];
    let dungeon = was.current_dungeon->0;
    let done = was.completed@;
    lemma_items_of(done.push(dungeon));
    assert(done.push(dungeon)[done.len() as int] == dungeon);
    if done.contains(d) {
        let k = choose|k: int| 0 <= k < done.len() && done[k] == d;
        assert(done.push(dungeon)[k] == d);
    }
}

} // verus!
