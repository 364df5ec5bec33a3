//! The dungeons: their rooms, and the ways between them (CR 309). What the rooms do is in
//! [`rooms`].

use crate::ids::{DungeonId, ObjectId, PlayerId};
use vstd::prelude::*;

pub mod room_laws;
pub mod rooms;

verus! {

/// What a venture may lead into: a dungeon of the player's choice, or one in particular.
#[derive(Clone, Copy, Debug, PartialEq, Eq, Structural)]
pub enum VentureSource {
    Normal,
    Specific(DungeonId),
}

pub open spec fn room_count(dungeon: DungeonId) -> u8 {
    match dungeon {
        DungeonId::LostMineOfPhandelver => 7,
        DungeonId::DungeonOfTheMadMage => 9,
        DungeonId::TombOfAnnihilation => 5,
        DungeonId::Undercity => 9,
    }
}

/// The rooms that a room leads to.
pub open spec fn rooms_after(dungeon: DungeonId, room: u8) -> Seq<u8> {
    match dungeon {
        DungeonId::LostMineOfPhandelver => if room == 0 {
            seq![1u8, 2u8]
        } else if room == 1 {
            seq![3u8, 4u8]
        } else if room == 2 {
            seq![4u8, 5u8]
        } else if room == 3 || room == 4 || room == 5 {
            seq![6u8]
        } else {
            seq![]
        },
        DungeonId::DungeonOfTheMadMage => if room == 0 {
            seq![1u8]
        } else if room == 1 {
            seq![2u8, 3u8]
        } else if room == 2 || room == 3 {
            seq![4u8]
        } else if room == 4 {
            seq![5u8, 6u8]
        } else if room == 5 || room == 6 {
            seq![7u8]
        } else if room == 7 {
            seq![8u8]
        } else {
            seq![]
        },
        DungeonId::TombOfAnnihilation => if room == 0 {
            seq![1u8, 2u8]
        } else if room == 1 {
            seq![3u8]
        } else if room == 2 || room == 3 {
            seq![4u8]
        } else {
            seq![]
        },
        DungeonId::Undercity => if room == 0 {
            seq![1u8, 2u8]
        } else if room == 1 {
            seq![3u8, 4u8]
        } else if room == 2 {
            seq![4u8, 5u8]
        } else if room == 3 {
            seq![6u8]
        } else if room == 4 {
            seq![6u8, 7u8]
        } else if room == 5 {
            seq![7u8]
        } else if room == 6 || room == 7 {
            seq![8u8]
        } else {
            seq![]
        },
    }
}

pub fn next_rooms(dungeon: DungeonId, room: u8) -> (r: Vec<u8>)
    ensures
        r@ == rooms_after(dungeon, room),
{
    let r: Vec<u8> = match dungeon {
        DungeonId::LostMineOfPhandelver => if room == 0 {
            vec![1, 2]
        } else if room == 1 {
            vec![3, 4]
        } else if room == 2 {
            vec![4, 5]
        } else if room == 3 || room == 4 || room == 5 {
            vec![6]
        } else {
            Vec::new()
        },
        DungeonId::DungeonOfTheMadMage => if room == 0 {
            vec![1]
        } else if room == 1 {
            vec![2, 3]
        } else if room == 2 || room == 3 {
            vec![4]
        } else if room == 4 {
            vec![5, 6]
        } else if room == 5 || room == 6 {
            vec![7]
        } else if room == 7 {
            vec![8]
        } else {
            Vec::new()
        },
        DungeonId::TombOfAnnihilation => if room == 0 {
            vec![1, 2]
        } else if room == 1 {
            vec![3]
        } else if room == 2 || room == 3 {
            vec![4]
        } else {
            Vec::new()
        },
        DungeonId::Undercity => if room == 0 {
            vec![1, 2]
        } else if room == 1 {
            vec![3, 4]
        } else if room == 2 {
            vec![4, 5]
        } else if room == 3 {
            vec![6]
        } else if room == 4 {
            vec![6, 7]
        } else if room == 5 {
            vec![7]
        } else if room == 6 || room == 7 {
            vec![8]
        } else {
            Vec::new()
        },
    };
    assert(r@ =~= rooms_after(dungeon, room));
    r
}

/// Every way leads further down, and to a room of the dungeon.
pub proof fn law_rooms_lead_down(dungeon: DungeonId, room: u8, i: int)
    requires
        0 <= i < rooms_after(dungeon, room).len(),
    ensures
        room < rooms_after(dungeon, room)[i] < room_count(dungeon),
{
}

/// Exactly the last room of a dungeon leads nowhere.
pub proof fn law_last_room(dungeon: DungeonId, room: u8)
    requires
        room < room_count(dungeon),
    ensures
        rooms_after(dungeon, room).len() == 0 <==> room == room_count(dungeon) - 1,
{
}

pub fn is_bottommost(dungeon: DungeonId, room: u8) -> (r: bool)
    ensures
        r == (rooms_after(dungeon, room).len() == 0),
{
    next_rooms(dungeon, room).len() == 0
}

pub open spec fn room_title(dungeon: DungeonId, room: u8) -> &'static str {
    match dungeon {
        DungeonId::LostMineOfPhandelver => if room == 0 {
            "Cave Entrance"
        } else if room == 1 {
            "Goblin Lair"
        } else if room == 2 {
            "Mine Tunnels"
        } else if room == 3 {
            "Storeroom"
        } else if room == 4 {
            "Dark Pool"
        } else if room == 5 {
            "Fungi Cavern"
        } else {
            "Temple of Dumathoin"
        },
        DungeonId::DungeonOfTheMadMage => if room == 0 {
            "Yawning Portal"
        } else if room == 1 {
            "Dungeon Level"
        } else if room == 2 {
            "Goblin Bazaar"
        } else if room == 3 {
            "Twisted Caverns"
        } else if room == 4 {
            "Lost Level"
        } else if room == 5 {
            "Runestone Caverns"
        } else if room == 6 {
            "Muiral's Graveyard"
        } else if room == 7 {
            "Deep Mines"
        } else {
            "Mad Wizard's Lair"
        },
        DungeonId::TombOfAnnihilation => if room == 0 {
            "Trapped Entry"
        } else if room == 1 {
            "Veils of Fear"
        } else if room == 2 {
            "Oubliette"
        } else if room == 3 {
            "Sandfall Cell"
        } else {
            "Cradle of the Death God"
        },
        DungeonId::Undercity => if room == 0 {
            "Secret Entrance"
        } else if room == 1 {
            "Forge"
        } else if room == 2 {
            "Lost Well"
        } else if room == 3 {
            "Trap!"
        } else if room == 4 {
            "Arena"
        } else if room == 5 {
            "Stash"
        } else if room == 6 {
            "Archives"
        } else if room == 7 {
            "Catacombs"
        } else {
            "Throne of the Dead Three"
        },
    }
}

pub fn room_name(dungeon: DungeonId, room: u8) -> (r: &'static str)
    requires
        room < room_count(dungeon),
    ensures
        r == room_title(dungeon, room),
{
    match dungeon {
        DungeonId::LostMineOfPhandelver => if room == 0 {
            "Cave Entrance"
        } else if room == 1 {
            "Goblin Lair"
        } else if room == 2 {
            "Mine Tunnels"
        } else if room == 3 {
            "Storeroom"
        } else if room == 4 {
            "Dark Pool"
        } else if room == 5 {
            "Fungi Cavern"
        } else {
            "Temple of Dumathoin"
        },
        DungeonId::DungeonOfTheMadMage => if room == 0 {
            "Yawning Portal"
        } else if room == 1 {
            "Dungeon Level"
        } else if room == 2 {
            "Goblin Bazaar"
        } else if room == 3 {
            "Twisted Caverns"
        } else if room == 4 {
            "Lost Level"
        } else if room == 5 {
            "Runestone Caverns"
        } else if room == 6 {
            "Muiral's Graveyard"
        } else if room == 7 {
            "Deep Mines"
        } else {
            "Mad Wizard's Lair"
        },
        DungeonId::TombOfAnnihilation => if room == 0 {
            "Trapped Entry"
        } else if room == 1 {
            "Veils of Fear"
        } else if room == 2 {
            "Oubliette"
        } else if room == 3 {
            "Sandfall Cell"
        } else {
            "Cradle of the Death God"
        },
        DungeonId::Undercity => if room == 0 {
            "Secret Entrance"
        } else if room == 1 {
            "Forge"
        } else if room == 2 {
            "Lost Well"
        } else if room == 3 {
            "Trap!"
        } else if room == 4 {
            "Arena"
        } else if room == 5 {
            "Stash"
        } else if room == 6 {
            "Archives"
        } else if room == 7 {
            "Catacombs"
        } else {
            "Throne of the Dead Three"
        },
    }
}

pub open spec fn dungeon_title(dungeon: DungeonId) -> &'static str {
    match dungeon {
        DungeonId::LostMineOfPhandelver => "Lost Mine of Phandelver",
        DungeonId::DungeonOfTheMadMage => "Dungeon of the Mad Mage",
        DungeonId::TombOfAnnihilation => "Tomb of Annihilation",
        DungeonId::Undercity => "Undercity",
    }
}

pub fn dungeon_name(dungeon: DungeonId) -> (r: &'static str)
    ensures
        r == dungeon_title(dungeon),
{
    match dungeon {
        DungeonId::LostMineOfPhandelver => "Lost Mine of Phandelver",
        DungeonId::DungeonOfTheMadMage => "Dungeon of the Mad Mage",
        DungeonId::TombOfAnnihilation => "Tomb of Annihilation",
        DungeonId::Undercity => "Undercity",
    }
}

/// The dungeons that a venture can begin.
pub open spec fn dungeon_options(source: VentureSource) -> Seq<DungeonId> {
    match source {
        VentureSource::Normal => seq![
            DungeonId::LostMineOfPhandelver,
            DungeonId::DungeonOfTheMadMage,
            DungeonId::TombOfAnnihilation,
        ],
        VentureSource::Specific(dungeon) => seq![dungeon],
    }
}

pub fn available_dungeons(source: VentureSource) -> (r: Vec<DungeonId>)
    ensures
        r@ == dungeon_options(source),
{
    let r: Vec<DungeonId> = match source {
        VentureSource::Normal => vec![
            DungeonId::LostMineOfPhandelver,
            DungeonId::DungeonOfTheMadMage,
            DungeonId::TombOfAnnihilation,
        ],
        VentureSource::Specific(dungeon) => vec![dungeon],
    };
    assert(r@ =~= dungeon_options(source));
    r
}

/// The identifier that stands for a player's dungeon, which is no object of the game.
pub open spec fn sentinel(player: PlayerId) -> ObjectId {
    ObjectId((u64::MAX - player.0) as u64)
}

pub fn dungeon_sentinel_id(player: PlayerId) -> (r: ObjectId)
    ensures
        r == sentinel(player),
{
    ObjectId(u64::MAX - player.0 as u64)
}

} // verus!
