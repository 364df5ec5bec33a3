# engine

The rules core of a trading card game engine, written and verified in Verus: triggered
abilities, combat damage, the elimination of players, the Ring and the dungeons.

## Layout

- `src/state.rs`, `src/object.rs`, `src/ability.rs`, `src/events.rs`, `src/ids.rs`: the state of
  a game, its objects, printed abilities, events and identifiers. `src/list.rs`, `src/text.rs`
  and `src/id_map.rs` are the containers that they are made of.
- `src/triggers.rs` and `src/triggers/`: which abilities an event triggers, in which order they
  go onto the stack, delayed and state triggers.
- `src/combat_damage.rs` and `src/combat_damage/`: the assignment, collection and dealing of
  combat damage.
- `src/elimination.rs`: a player leaves the game; the end of the game.
- `src/effects/`: the Ring, dungeons and tokens. `src/dungeon.rs` and `src/dungeon/` hold the
  dungeons themselves.
- The other modules are the rules that these lean on: zones, filters, quantities, targeting,
  layers, state-based actions, damage and replacement effects.
- `tests/`: scenarios, played through the public functions.

## How the contracts read

`GameState` has a view `Game`, a value of mathematical sequences and maps. An operation
`f(&mut state, ..)` ensures `final(state)@ == g(old(state)@, ..)` for a spec function `g` that
says what the rule does. Properties that span operations are public proof functions whose
names begin with `law_`.
