//! Rules of a trading card game engine: triggered abilities, combat damage, players leaving the
//! game, the Ring and the dungeons.
//!
//! A [`state::GameState`] holds a game. Its view, [`state::Game`], is a plain value of sequences
//! and maps, and each operation of the engine is a function from games to games: the contract
//! of an operation names that function and says that the state afterwards is its value. What an
//! operation announces is appended to the list of events that it is handed.
//!
//! * [`triggers`] finds the abilities that a batch of events triggers, orders them and puts
//!   them on the stack.
//! * [`combat_damage`] assigns and deals the damage of a combat step.
//! * [`elimination`] takes a player out of the game and ends the game when it is decided.
//! * [`effects::ring`] tempts a player with the Ring; [`effects::venture`] takes a player
//!   through a dungeon.
//!
//! Rules are cited by their number in the Comprehensive Rules, as in CR 603.2.

pub mod ability;
pub mod beginning_laws;
pub mod casting;
pub mod combat;
pub mod combat_damage;
pub mod damage;
pub mod damage_laws;
pub mod dungeon;
pub mod effects;
pub mod elimination;
pub mod events;
pub mod filter;
pub mod filter_laws;
pub mod functioning;
pub mod id_map;
pub mod ids;
pub mod layers;
pub mod layers_laws;
pub mod list;
pub mod mana;
pub mod matchers;
pub mod mulligan;
pub mod object;
pub mod players;
pub mod protection;
pub mod quantity;
pub mod quantity_laws;
pub mod replacement;
pub mod sba;
pub mod sba_laws;
pub mod speed;
pub mod stack;
pub mod state;
pub mod targeting;
pub mod text;
pub mod triggers;
pub mod zones;
pub mod zones_laws;
