//! The state of a game, and its mathematical model.

use crate::ability::{
    ContinuousModification, DelayedTriggerCondition, DistributionUnit, ReplacementDefinition,
    ResolvedAbility, TargetFilter, TriggerCondition,
};
use crate::combat::{CombatState, TrampleKind};
use crate::events::GameEvent;
use crate::id_map::{at, IdMap};
use crate::ids::{
    AttackTarget, CardId, DungeonId, ObjectId, Phase, PlayerId, TargetRef, TrackedSetId, Zone,
};
use crate::list::{list_of, List};
use crate::object::{fresh_player, GameObject, LkiSnapshot, Player, SpellCastRecord};
use crate::text::Text;
use crate::triggers::PendingTrigger;
use std::rc::Rc;
use vstd::prelude::*;

verus! {

#[derive(Clone, Copy, Debug, PartialEq, Eq, Structural)]
pub struct FormatConfig {
    pub starting_life: i32,
    pub team_based: bool,
}

impl FormatConfig {
    pub fn standard() -> (r: Self)
        ensures
            r == (FormatConfig { starting_life: 20, team_based: false }),
    {
        FormatConfig { starting_life: 20, team_based: false }
    }

    pub fn free_for_all() -> (r: Self)
        ensures
            r == (FormatConfig { starting_life: 20, team_based: false }),
    {
        FormatConfig { starting_life: 20, team_based: false }
    }

    pub fn commander() -> (r: Self)
        ensures
            r == (FormatConfig { starting_life: 40, team_based: false }),
    {
        FormatConfig { starting_life: 40, team_based: false }
    }

    pub fn two_headed_giant() -> (r: Self)
        ensures
            r == (FormatConfig { starting_life: 30, team_based: true }),
    {
        FormatConfig { starting_life: 30, team_based: true }
    }
}

#[derive(Clone, Copy, Debug, PartialEq, Eq, Structural)]
pub enum CastingVariant {
    Normal,
    Flashback,
    Copy,
}

#[allow(inconsistent_fields)]
#[derive(Debug, PartialEq, Eq)]
pub enum StackEntryKind {
    Spell {
        card_id: CardId,
        ability: Option<ResolvedAbility>,
        casting_variant: CastingVariant,
        actual_mana_spent: u32,
    },
    ActivatedAbility { source_id: ObjectId, ability: ResolvedAbility },
    TriggeredAbility {
        source_id: ObjectId,
        ability: ResolvedAbility,
        condition: Option<Rc<TriggerCondition>>,
        trigger_event: Option<GameEvent>,
        description: Option<Text>,
        source_name: Text,
    },
    KeywordAction { source_id: ObjectId },
}

#[derive(Debug, PartialEq, Eq)]
pub struct StackEntry {
    pub id: ObjectId,
    pub source_id: ObjectId,
    pub controller: PlayerId,
    pub kind: StackEntryKind,
}

impl StackEntry {
    pub open spec fn ability_spec(&self) -> Option<ResolvedAbility> {
        match self.kind {
            StackEntryKind::Spell { ability, .. } => ability,
            StackEntryKind::ActivatedAbility { ability, .. } => Some(ability),
            StackEntryKind::TriggeredAbility { ability, .. } => Some(ability),
            StackEntryKind::KeywordAction { .. } => None,
        }
    }

    pub fn ability(&self) -> (r: Option<&ResolvedAbility>)
        ensures
            match r {
                Some(a) => self.ability_spec() == Some(*a),
                None => self.ability_spec() is None,
            },
    {
        match &self.kind {
            StackEntryKind::Spell { ability, .. } => ability.as_ref(),
            StackEntryKind::ActivatedAbility { ability, .. } => Some(ability),
            StackEntryKind::TriggeredAbility { ability, .. } => Some(ability),
            StackEntryKind::KeywordAction { .. } => None,
        }
    }
}

#[derive(Debug, PartialEq, Eq)]
pub struct DelayedTrigger {
    pub condition: DelayedTriggerCondition,
    pub ability: ResolvedAbility,
    pub controller: PlayerId,
    pub source_id: ObjectId,
    pub one_shot: bool,
}

#[derive(Clone, Copy, Debug, PartialEq, Eq, Structural)]
pub struct MulliganEntry {
    pub player: PlayerId,
    pub count: u32,
}

#[derive(Clone, Copy, Debug, PartialEq, Eq, Structural)]
pub struct DamageSlot {
    pub blocker_id: ObjectId,
    pub lethal_minimum: u32,
}

#[derive(Clone, Copy, Debug, PartialEq, Eq, Structural)]
pub enum CombatDamageAssignmentMode {
    Normal,
    AsThoughUnblocked,
}

/// What the game is waiting for.
#[allow(inconsistent_fields)]
#[derive(Debug, PartialEq, Eq)]
pub enum WaitingFor {
    Priority { player: PlayerId },
    GameOver { winner: Option<PlayerId> },
    MulliganDecision { pending: List<MulliganEntry>, free_first_mulligan: bool },
    MulliganBottomCards { pending: List<MulliganEntry> },
    AssignCombatDamage {
        player: PlayerId,
        attacker_id: ObjectId,
        total_damage: u32,
        blockers: List<DamageSlot>,
        assignment_modes: List<CombatDamageAssignmentMode>,
        trample: Option<TrampleKind>,
        defending_player: PlayerId,
        attack_target: AttackTarget,
        pw_loyalty: Option<u32>,
        pw_controller: Option<PlayerId>,
    },
    DistributeAmong {
        player: PlayerId,
        total: u32,
        targets: List<TargetRef>,
        unit: DistributionUnit,
    },
    ChooseRingBearer { player: PlayerId, candidates: List<ObjectId> },
    ChooseDungeon { player: PlayerId, options: List<DungeonId> },
    ChooseDungeonRoom {
        player: PlayerId,
        dungeon: DungeonId,
        options: List<u8>,
        option_names: List<&'static str>,
    },
}

impl WaitingFor {
    /// The one player whose decision the game waits for, where there is one. Mulligans are
    /// decided by all players at once.
    pub open spec fn actor(self) -> Option<PlayerId> {
        match self {
            WaitingFor::Priority { player } => Some(player),
            WaitingFor::GameOver { .. } => None,
            WaitingFor::MulliganDecision { .. } => None,
            WaitingFor::MulliganBottomCards { .. } => None,
            WaitingFor::AssignCombatDamage { player, .. } => Some(player),
            WaitingFor::DistributeAmong { player, .. } => Some(player),
            WaitingFor::ChooseRingBearer { player, .. } => Some(player),
            WaitingFor::ChooseDungeon { player, .. } => Some(player),
            WaitingFor::ChooseDungeonRoom { player, .. } => Some(player),
        }
    }

    pub fn acting_player(&self) -> (r: Option<PlayerId>)
        ensures
            r == self.actor(),
    {
        match self {
            WaitingFor::Priority { player } => Some(*player),
            WaitingFor::GameOver { .. } => None,
            WaitingFor::MulliganDecision { .. } => None,
            WaitingFor::MulliganBottomCards { .. } => None,
            WaitingFor::AssignCombatDamage { player, .. } => Some(*player),
            WaitingFor::DistributeAmong { player, .. } => Some(*player),
            WaitingFor::ChooseRingBearer { player, .. } => Some(*player),
            WaitingFor::ChooseDungeon { player, .. } => Some(*player),
            WaitingFor::ChooseDungeonRoom { player, .. } => Some(*player),
        }
    }
}

#[derive(Clone, Copy, Debug, PartialEq, Eq, Structural)]
pub struct CommanderDamageEntry {
    pub player: PlayerId,
    pub commander: ObjectId,
    pub damage: u32,
}

#[derive(Clone, Copy, Debug, PartialEq, Eq, Structural)]
pub struct DamageRecord {
    pub source_id: ObjectId,
    pub source_controller: PlayerId,
    pub target: TargetRef,
    pub amount: u32,
    pub is_combat: bool,
}

/// A player's way through the dungeons.
#[derive(Debug, PartialEq, Eq)]
pub struct DungeonProgress {
    pub current_dungeon: Option<DungeonId>,
    pub current_room: u8,
    pub completed: List<DungeonId>,
}

impl DungeonProgress {
    pub open spec fn none() -> DungeonProgress {
        DungeonProgress { current_dungeon: None, current_room: 0, completed: list_of(seq![]) }
    }
}

impl Default for DungeonProgress {
    fn default() -> (r: Self)
        ensures
            r == DungeonProgress::none(),
    {
        DungeonProgress { current_dungeon: None, current_room: 0, completed: List::new() }
    }
}

impl Clone for DungeonProgress {
    fn clone(&self) -> (r: Self)
        ensures
            r == *self,
    {
        DungeonProgress {
            current_dungeon: self.current_dungeon,
            current_room: self.current_room,
            completed: self.completed.clone(),
        }
    }
}

#[derive(Debug, PartialEq, Eq)]
pub struct TransientContinuousEffect {
    pub source_id: ObjectId,
    pub controller: PlayerId,
    pub affected: TargetFilter,
    pub modifications: List<ContinuousModification>,
}

/// The spells that one player has cast this turn, in order.
#[derive(Debug, PartialEq, Eq)]
pub struct CastHistory {
    pub player: PlayerId,
    pub spells: List<SpellCastRecord>,
}

#[derive(Debug)]
pub struct GameState {
    pub format_config: FormatConfig,
    pub players: Vec<Player>,
    pub active_player: PlayerId,
    pub priority_player: PlayerId,
    pub turn_number: u32,
    pub phase: Phase,
    pub waiting_for: WaitingFor,
    pub objects: IdMap<ObjectId, GameObject>,
    pub battlefield: Vec<ObjectId>,
    pub exile: Vec<ObjectId>,
    pub command_zone: Vec<ObjectId>,
    pub stack: Vec<StackEntry>,
    pub next_object_id: u64,
    pub timestamp_counter: u64,
    pub rng_state: u64,
    pub eliminated_players: Vec<PlayerId>,
    pub auto_pass: IdMap<PlayerId, bool>,
    pub final_mulligan_counts: IdMap<PlayerId, u32>,
    pub monarch: Option<PlayerId>,
    pub initiative: Option<PlayerId>,
    pub city_blessing: Vec<PlayerId>,
    pub ring_level: IdMap<PlayerId, u8>,
    pub ring_bearer: IdMap<PlayerId, Option<ObjectId>>,
    pub dungeon_progress: IdMap<PlayerId, DungeonProgress>,
    pub combat: Option<CombatState>,
    pub combat_phases_started_this_turn: u32,
    pub commander_damage: Vec<CommanderDamageEntry>,
    pub damage_dealt_this_turn: Vec<DamageRecord>,
    pub players_attacked_this_turn: Vec<PlayerId>,
    pub counter_added_this_turn: Vec<PlayerId>,
    pub spells_cast_this_turn_by_player: Vec<CastHistory>,
    pub spells_cast_last_turn: Option<u32>,
    pub lki_cache: IdMap<ObjectId, LkiSnapshot>,
    pub tracked_object_sets: IdMap<TrackedSetId, List<ObjectId>>,
    pub exile_links: Vec<(ObjectId, ObjectId)>,
    pub layers_dirty: bool,
    pub transient_continuous_effects: Vec<TransientContinuousEffect>,
    pub delayed_triggers: Vec<DelayedTrigger>,
    pub triggers_fired_this_turn: Vec<(ObjectId, usize)>,
    pub triggers_fired_this_game: Vec<(ObjectId, usize)>,
    pub trigger_fire_counts_this_turn: IdMap<(ObjectId, usize), u32>,
    pub pending_trigger: Option<PendingTrigger>,
    pub pending_trigger_event_batch: List<GameEvent>,
    pub stack_trigger_event_batches: IdMap<ObjectId, List<GameEvent>>,
    pub current_trigger_event: Option<GameEvent>,
    pub current_trigger_events: List<GameEvent>,
    pub pending_damage_replacements: Vec<ReplacementDefinition>,
    pub last_effect_count: Option<i32>,
}

/// The model of a game state: its collections as sequences and maps. `exile_links` pairs a
/// source with a card that it exiled.
#[verifier::ext_equal]
pub struct Game {
    pub format_config: FormatConfig,
    pub players: Seq<Player>,
    pub active_player: PlayerId,
    pub priority_player: PlayerId,
    pub turn_number: u32,
    pub phase: Phase,
    pub waiting_for: WaitingFor,
    pub objects: Map<ObjectId, GameObject>,
    pub battlefield: Seq<ObjectId>,
    pub exile: Seq<ObjectId>,
    pub command_zone: Seq<ObjectId>,
    pub stack: Seq<StackEntry>,
    pub next_object_id: u64,
    pub timestamp_counter: u64,
    pub rng_state: u64,
    pub eliminated_players: Seq<PlayerId>,
    pub auto_pass: Map<PlayerId, bool>,
    pub final_mulligan_counts: Map<PlayerId, u32>,
    pub monarch: Option<PlayerId>,
    pub initiative: Option<PlayerId>,
    pub city_blessing: Seq<PlayerId>,
    pub ring_level: Map<PlayerId, u8>,
    pub ring_bearer: Map<PlayerId, Option<ObjectId>>,
    pub dungeon_progress: Map<PlayerId, DungeonProgress>,
    pub combat: Option<CombatState>,
    pub combat_phases_started_this_turn: u32,
    pub commander_damage: Seq<CommanderDamageEntry>,
    pub damage_dealt_this_turn: Seq<DamageRecord>,
    pub players_attacked_this_turn: Seq<PlayerId>,
    pub counter_added_this_turn: Seq<PlayerId>,
    pub spells_cast_this_turn_by_player: Seq<CastHistory>,
    pub spells_cast_last_turn: Option<u32>,
    pub lki_cache: Map<ObjectId, LkiSnapshot>,
    pub tracked_object_sets: Map<TrackedSetId, List<ObjectId>>,
    pub exile_links: Seq<(ObjectId, ObjectId)>,
    pub layers_dirty: bool,
    pub transient_continuous_effects: Seq<TransientContinuousEffect>,
    pub delayed_triggers: Seq<DelayedTrigger>,
    pub triggers_fired_this_turn: Seq<(ObjectId, usize)>,
    pub triggers_fired_this_game: Seq<(ObjectId, usize)>,
    pub trigger_fire_counts_this_turn: Map<(ObjectId, usize), u32>,
    pub pending_trigger: Option<PendingTrigger>,
    pub pending_trigger_event_batch: List<GameEvent>,
    pub stack_trigger_event_batches: Map<ObjectId, List<GameEvent>>,
    pub current_trigger_event: Option<GameEvent>,
    pub current_trigger_events: List<GameEvent>,
    pub pending_damage_replacements: Seq<ReplacementDefinition>,
    pub last_effect_count: Option<i32>,
}

impl View for GameState {
    type V = Game;

    open spec fn view(&self) -> Game {
        Game {
            format_config: self.format_config,
            players: self.players@,
            active_player: self.active_player,
            priority_player: self.priority_player,
            turn_number: self.turn_number,
            phase: self.phase,
            waiting_for: self.waiting_for,
            objects: self.objects@,
            battlefield: self.battlefield@,
            exile: self.exile@,
            command_zone: self.command_zone@,
            stack: self.stack@,
            next_object_id: self.next_object_id,
            timestamp_counter: self.timestamp_counter,
            rng_state: self.rng_state,
            eliminated_players: self.eliminated_players@,
            auto_pass: self.auto_pass@,
            final_mulligan_counts: self.final_mulligan_counts@,
            monarch: self.monarch,
            initiative: self.initiative,
            city_blessing: self.city_blessing@,
            ring_level: self.ring_level@,
            ring_bearer: self.ring_bearer@,
            dungeon_progress: self.dungeon_progress@,
            combat: self.combat,
            combat_phases_started_this_turn: self.combat_phases_started_this_turn,
            commander_damage: self.commander_damage@,
            damage_dealt_this_turn: self.damage_dealt_this_turn@,
            players_attacked_this_turn: self.players_attacked_this_turn@,
            counter_added_this_turn: self.counter_added_this_turn@,
            spells_cast_this_turn_by_player: self.spells_cast_this_turn_by_player@,
            spells_cast_last_turn: self.spells_cast_last_turn,
            lki_cache: self.lki_cache@,
            tracked_object_sets: self.tracked_object_sets@,
            exile_links: self.exile_links@,
            layers_dirty: self.layers_dirty,
            transient_continuous_effects: self.transient_continuous_effects@,
            delayed_triggers: self.delayed_triggers@,
            triggers_fired_this_turn: self.triggers_fired_this_turn@,
            triggers_fired_this_game: self.triggers_fired_this_game@,
            trigger_fire_counts_this_turn: self.trigger_fire_counts_this_turn@,
            pending_trigger: self.pending_trigger,
            pending_trigger_event_batch: self.pending_trigger_event_batch,
            stack_trigger_event_batches: self.stack_trigger_event_batches@,
            current_trigger_event: self.current_trigger_event,
            current_trigger_events: self.current_trigger_events,
            pending_damage_replacements: self.pending_damage_replacements@,
            last_effect_count: self.last_effect_count,
        }
    }
}

impl Game {
    /// The object with the given identifier, where there is one.
    pub open spec fn object(self, id: ObjectId) -> Option<GameObject> {
        at(self.objects, id)
    }

    pub open spec fn on_battlefield(self, id: ObjectId) -> bool {
        self.object(id) matches Some(o) && o.zone == Zone::Battlefield
    }

    pub open spec fn controller_of(self, id: ObjectId) -> Option<PlayerId> {
        match self.object(id) {
            None => None,
            Some(o) => Some(o.controller),
        }
    }

    /// Where the player with the given identifier sits, or the number of players.
    pub open spec fn seat(self, id: PlayerId) -> nat {
        first_seat(self.players, id, 0)
    }

    pub open spec fn player(self, id: PlayerId) -> Option<Player> {
        if self.seat(id) < self.players.len() {
            Some(self.players[self.seat(id) as int])
        } else {
            None
        }
    }

    /// The game with one player replaced, where that player is in it.
    pub open spec fn set_player(self, id: PlayerId, player: Player) -> Game {
        Game { players: self.players.update(self.seat(id) as int, player), ..self }
    }

    pub open spec fn set_object(self, id: ObjectId, object: GameObject) -> Game {
        Game { objects: self.objects.insert(id, object), ..self }
    }
}

/// A game, and what has been told of it.
pub struct Play {
    pub game: Game,
    pub events: Seq<GameEvent>,
}

/// Whether two games have the same players in the same seats, with the same ones gone.
pub open spec fn same_seats(a: Game, b: Game) -> bool {
    a.players.len() == b.players.len() && forall|i: int|
        0 <= i < a.players.len() ==> (#[trigger] a.players[i]).id == b.players[i].id
            && a.players[i].is_eliminated == b.players[i].is_eliminated
}

/// Whether two games have the same players around the same permanents, in the same combat.
pub open spec fn same_table(a: Game, b: Game) -> bool {
    same_seats(a, b) && a.battlefield == b.battlefield && a.combat == b.combat
}

/// Whether two games also have the same stack and the same player's turn.
pub open spec fn same_scene(a: Game, b: Game) -> bool {
    same_table(a, b) && a.stack == b.stack && a.active_player == b.active_player
}

/// The first seat, from `from` on, of the player with the given identifier.
pub open spec fn first_seat(players: Seq<Player>, id: PlayerId, from: nat) -> nat
    decreases players.len() - from,
{
    if from >= players.len() {
        players.len()
    } else if players[from as int].id == id {
        from
    } else {
        first_seat(players, id, from + 1)
    }
}

pub proof fn lemma_first_seat(players: Seq<Player>, id: PlayerId, from: nat)
    requires
        from <= players.len(),
    ensures
        from <= first_seat(players, id, from) <= players.len(),
        first_seat(players, id, from) < players.len() ==> players[first_seat(
            players,
            id,
            from,
        ) as int].id == id,
        forall|i: int| from <= i < first_seat(players, id, from) ==> players[i].id != id,
    decreases players.len() - from,
{
    if from < players.len() && players[from as int].id != id {
        lemma_first_seat(players, id, from + 1);
    }
}

/// A game with nothing on the table, about to begin.
pub open spec fn fresh_game(format: FormatConfig, player_count: u8, seed: u64) -> Game {
    Game {
        format_config: format,
        players: Seq::new(
            player_count as nat,
            |i: int| fresh_player(PlayerId(i as u8), format.starting_life),
        ),
        active_player: PlayerId(0),
        priority_player: PlayerId(0),
        turn_number: 0,
        phase: Phase::Untap,
        waiting_for: WaitingFor::Priority { player: PlayerId(0) },
        objects: Map::empty(),
        battlefield: seq![],
        exile: seq![],
        command_zone: seq![],
        stack: seq![],
        next_object_id: 1,
        timestamp_counter: 1,
        rng_state: seed,
        eliminated_players: seq![],
        auto_pass: Map::empty(),
        final_mulligan_counts: Map::empty(),
        monarch: None,
        initiative: None,
        city_blessing: seq![],
        ring_level: Map::empty(),
        ring_bearer: Map::empty(),
        dungeon_progress: Map::empty(),
        combat: None,
        combat_phases_started_this_turn: 0,
        commander_damage: seq![],
        damage_dealt_this_turn: seq![],
        players_attacked_this_turn: seq![],
        counter_added_this_turn: seq![],
        spells_cast_this_turn_by_player: seq![],
        spells_cast_last_turn: None,
        lki_cache: Map::empty(),
        tracked_object_sets: Map::empty(),
        exile_links: seq![],
        layers_dirty: false,
        transient_continuous_effects: seq![],
        delayed_triggers: seq![],
        triggers_fired_this_turn: seq![],
        triggers_fired_this_game: seq![],
        trigger_fire_counts_this_turn: Map::empty(),
        pending_trigger: None,
        pending_trigger_event_batch: list_of(seq![]),
        stack_trigger_event_batches: Map::empty(),
        current_trigger_event: None,
        current_trigger_events: list_of(seq![]),
        pending_damage_replacements: seq![],
        last_effect_count: None,
    }
}

/// One more, or zero after the largest number there is.
pub open spec fn next_number(n: u64) -> u64 {
    if n == u64::MAX {
        0
    } else {
        (n + 1) as u64
    }
}

pub fn bump(n: u64) -> (r: u64)
    ensures
        r == next_number(n),
{
    if n == u64::MAX {
        0
    } else {
        n + 1
    }
}

impl GameState {
    /// A game with nothing on the table, about to begin.
    pub fn new(format: FormatConfig, player_count: u8, seed: u64) -> (r: Self)
        ensures
            r@ == fresh_game(format, player_count, seed),
    {
        let mut players: Vec<Player> = Vec::new();
        let mut i: u8 = 0;
        while i < player_count
            invariant
                i <= player_count,
                players@.len() == i,
                forall|j: int|
                    0 <= j < i ==> #[trigger] players@[j] == fresh_player(
                        PlayerId(j as u8),
                        format.starting_life,
                    ),
            decreases player_count - i,
        {
            players.push(Player::new(PlayerId(i), format.starting_life));
            i = i + 1;
        }
        let r = GameState {
            format_config: format,
            players,
            active_player: PlayerId(0),
            priority_player: PlayerId(0),
            turn_number: 0,
            phase: Phase::Untap,
            waiting_for: WaitingFor::Priority { player: PlayerId(0) },
            objects: IdMap::new(),
            battlefield: Vec::new(),
            exile: Vec::new(),
            command_zone: Vec::new(),
            stack: Vec::new(),
            next_object_id: 1,
            timestamp_counter: 1,
            rng_state: seed,
            eliminated_players: Vec::new(),
            auto_pass: IdMap::new(),
            final_mulligan_counts: IdMap::new(),
            monarch: None,
            initiative: None,
            city_blessing: Vec::new(),
            ring_level: IdMap::new(),
            ring_bearer: IdMap::new(),
            dungeon_progress: IdMap::new(),
            combat: None,
            combat_phases_started_this_turn: 0,
            commander_damage: Vec::new(),
            damage_dealt_this_turn: Vec::new(),
            players_attacked_this_turn: Vec::new(),
            counter_added_this_turn: Vec::new(),
            spells_cast_this_turn_by_player: Vec::new(),
            spells_cast_last_turn: None,
            lki_cache: IdMap::new(),
            tracked_object_sets: IdMap::new(),
            exile_links: Vec::new(),
            layers_dirty: false,
            transient_continuous_effects: Vec::new(),
            delayed_triggers: Vec::new(),
            triggers_fired_this_turn: Vec::new(),
            triggers_fired_this_game: Vec::new(),
            trigger_fire_counts_this_turn: IdMap::new(),
            pending_trigger: None,
            pending_trigger_event_batch: List::new(),
            stack_trigger_event_batches: IdMap::new(),
            current_trigger_event: None,
            current_trigger_events: List::new(),
            pending_damage_replacements: Vec::new(),
            last_effect_count: None,
        };
        assert(r@ =~= fresh_game(format, player_count, seed));
        r
    }

    pub fn new_two_player(seed: u64) -> (r: Self)
        ensures
            r@ == fresh_game(FormatConfig { starting_life: 20, team_based: false }, 2, seed),
    {
        GameState::new(FormatConfig::standard(), 2, seed)
    }

    pub fn is_on_battlefield(&self, id: ObjectId) -> (r: bool)
        ensures
            r == self@.on_battlefield(id),
    {
        match self.objects.get(&id) {
            None => false,
            Some(o) => o.zone == Zone::Battlefield,
        }
    }

    pub fn find_seat(&self, id: PlayerId) -> (r: usize)
        ensures
            r == self@.seat(id),
            r <= self.players@.len(),
    {
        let mut i: usize = 0;
        while i < self.players.len()
            invariant
                i <= self.players@.len(),
                self@.seat(id) == first_seat(self.players@, id, i as nat),
            decreases self.players@.len() - i,
        {
            if self.players[i].id == id {
                return i;
            }
            i = i + 1;
        }
        i
    }

    pub fn get_player(&self, id: PlayerId) -> (r: Option<&Player>)
        ensures
            match r {
                Some(p) => self@.player(id) == Some(*p),
                None => self@.player(id) is None,
            },
    {
        let seat: usize = self.find_seat(id);
        if seat < self.players.len() {
            Some(&self.players[seat])
        } else {
            None
        }
    }

    /// Hands out the next timestamp.
    pub fn next_timestamp(&mut self) -> (r: u64)
        ensures
            r == old(self).timestamp_counter,
            final(self)@ == (Game {
                timestamp_counter: next_number(old(self).timestamp_counter),
                ..old(self)@
            }),
    {
        let r: u64 = self.timestamp_counter;
        self.timestamp_counter = bump(r);
        r
    }
}

} // verus!
