//! The Ring and its bearers (CR 701.54).

use crate::ability::ResolvedAbility;
use crate::effects::EffectError;
use crate::events::{EffectKind, GameEvent};
use crate::id_map::at;
use crate::ids::{CoreType, ObjectId, PlayerId, Zone};
use crate::list::{list_of, List};
use crate::state::{Game, GameState, WaitingFor};
use vstd::prelude::*;

verus! {

pub const MAX_RING_LEVEL: u8 = 4;

/// How far the Ring has tempted a player; 0 for a player it has never tempted.
pub open spec fn ring_level_of(g: Game, player: PlayerId) -> u8 {
    match at(g.ring_level, player) {
        None => 0,
        Some(level) => level,
    }
}

pub fn find_ring_level(state: &GameState, player: PlayerId) -> (r: u8)
    ensures
        r == ring_level_of(state@, player),
{
    match state.ring_level.get(&player) {
        None => 0,
        Some(level) => *level,
    }
}

/// Whether an object can bear a player's Ring: a creature that the player controls on the
/// battlefield.
pub open spec fn can_bear(g: Game, player: PlayerId, id: ObjectId) -> bool {
    g.object(id) matches Some(o) && o.zone == Zone::Battlefield && o.controller == player
        && o.is_type(CoreType::Creature)
}

fn check_can_bear(state: &GameState, player: PlayerId, id: ObjectId) -> (r: bool)
    ensures
        r == can_bear(state@, player, id),
{
    match state.objects.get(&id) {
        None => false,
        Some(o) => o.zone == Zone::Battlefield && o.controller == player && o.has_core_type(
            CoreType::Creature,
        ),
    }
}

/// Those of the first `n` permanents that can bear the player's Ring.
pub open spec fn ring_candidates(g: Game, player: PlayerId, n: nat) -> Seq<ObjectId>
    decreases n,
{
    if n == 0 {
        seq![]
    } else {
        let before = ring_candidates(g, player, (n - 1) as nat);
        if can_bear(g, player, g.battlefield[n - 1]) {
            before.push(g.battlefield[n - 1])
        } else {
            before
        }
    }
}

/// The game after the Ring has tempted a player: one level more, up to the highest, and a
/// bearer, where there is exactly one creature to be it, or a choice, where there are more.
pub open spec fn tempted(g: Game, player: PlayerId) -> Game {
    let level = ring_level_of(g, player);
    let next = Game {
        ring_level: g.ring_level.insert(
            player,
            if level < MAX_RING_LEVEL {
                (level + 1) as u8
            } else {
                level
            },
        ),
        ..g
    };
    let candidates = ring_candidates(g, player, g.battlefield.len());
    if candidates.len() == 0 {
        next
    } else if candidates.len() == 1 {
        Game {
            ring_bearer: g.ring_bearer.insert(player, Some(candidates[0])),
            layers_dirty: true,
            ..next
        }
    } else {
        Game {
            waiting_for: WaitingFor::ChooseRingBearer { player, candidates: list_of(candidates) },
            ..next
        }
    }
}

/// CR 701.54: The Ring tempts you.
///
/// CR 701.54a: When the Ring tempts you, choose a creature you control.
/// That creature becomes your Ring-bearer.
///
/// CR 701.54c: Each time the Ring tempts you, your ring level increases by one,
/// to a maximum of four.
pub fn resolve(
    state: &mut GameState,
    ability: &ResolvedAbility,
    events: &mut Vec<GameEvent>,
) -> (r: Result<(), EffectError>)
    ensures
        r is Ok,
        final(state)@ == tempted(old(state)@, ability.controller),
        final(events)@ == old(events)@.push(
            GameEvent::RingTemptsYou { player_id: ability.controller },
        ).push(
            GameEvent::EffectResolved {
                kind: EffectKind::RingTemptsYou,
                source_id: ability.source_id,
            },
        ),
{
    let controller = ability.controller;
    let mut candidates: Vec<ObjectId> = Vec::new();
    let mut i: usize = 0;
    while i < state.battlefield.len()
        invariant
            i <= state.battlefield@.len(),
            *state == *old(state),
            candidates@ == ring_candidates(state@, controller, i as nat),
        decreases state.battlefield@.len() - i,
    {
        if check_can_bear(state, controller, state.battlefield[i]) {
            candidates.push(state.battlefield[i]);
        }
        i = i + 1;
    }

    // CR 701.54b: Increment ring level, capping at 4 (the ring has 4 tiers).
    // Level 0 = never tempted (no abilities). Levels 1-4 unlock progressive tiers.
    let level: u8 = find_ring_level(state, controller);
    if level < MAX_RING_LEVEL {
        state.ring_level.insert(controller, level + 1);
    } else {
        state.ring_level.insert(controller, level);
    }

    // Emit the event so triggers can fire.
    events.push(GameEvent::RingTemptsYou { player_id: controller });
    events.push(
        GameEvent::EffectResolved {
            kind: EffectKind::RingTemptsYou,
            source_id: ability.source_id,
        },
    );

    if candidates.len() == 0 {
        // No creatures: the Ring tempts but there is no ring-bearer selection.
        return Ok(());
    }
    if candidates.len() == 1 {
        // Only one creature: auto-select as ring-bearer.
        state.ring_bearer.insert(controller, Some(candidates[0]));
        state.layers_dirty = true;
        return Ok(());
    }
    // Multiple candidates: ask the player to choose.
    state.waiting_for = WaitingFor::ChooseRingBearer {
        player: controller,
        candidates: List::from_vec(candidates),
    };
    Ok(())
}

/// The creature that was last chosen to bear a player's Ring.
pub open spec fn designated(g: Game, player: PlayerId) -> Option<ObjectId> {
    match at(g.ring_bearer, player) {
        None => None,
        Some(bearer) => bearer,
    }
}

fn find_designated(state: &GameState, player: PlayerId) -> (r: Option<ObjectId>)
    ensures
        r == designated(state@, player),
{
    match state.ring_bearer.get(&player) {
        None => None,
        Some(bearer) => *bearer,
    }
}

pub open spec fn is_bearer(g: Game, player: PlayerId, id: ObjectId) -> bool {
    designated(g, player) == Some(id) && can_bear(g, player, id)
}

/// CR 701.54e: A player's Ring-bearer designation is valid only while that
/// creature remains on the battlefield under that player's control.
pub fn is_current_ring_bearer(state: &GameState, player: PlayerId, object_id: ObjectId) -> (r: bool)
    ensures
        r == is_bearer(state@, player, object_id),
{
    find_designated(state, player) == Some(object_id) && check_can_bear(state, player, object_id)
}

pub open spec fn bearer_of(g: Game, player: PlayerId) -> Option<ObjectId> {
    match designated(g, player) {
        None => None,
        Some(id) => if can_bear(g, player, id) {
            Some(id)
        } else {
            None
        },
    }
}

pub fn ring_bearer_for(state: &GameState, player: PlayerId) -> (r: Option<ObjectId>)
    ensures
        r == bearer_of(state@, player),
{
    match find_designated(state, player) {
        None => None,
        Some(id) => if is_current_ring_bearer(state, player, id) {
            Some(id)
        } else {
            None
        },
    }
}

/// The designations without those of the players in a set.
pub open spec fn without(m: Map<PlayerId, Option<ObjectId>>, dropped: Set<PlayerId>) -> Map<
    PlayerId,
    Option<ObjectId>,
> {
    m.remove_keys(dropped)
}

/// The players whose Ring is designated to be borne by an object.
pub open spec fn bearing(g: Game, id: ObjectId) -> Set<PlayerId> {
    Set::new(|p: PlayerId| designated(g, p) == Some(id))
}

/// The game in which an object no longer bears any Ring.
#[verifier::opaque]
pub open spec fn bearer_cleared(g: Game, id: ObjectId) -> Game {
    Game {
        ring_bearer: without(g.ring_bearer, bearing(g, id)),
        layers_dirty: g.layers_dirty || exists|p: PlayerId| #[trigger] designated(g, p) == Some(id),
        ..g
    }
}

pub fn clear_ring_bearer_if_object(state: &mut GameState, object_id: ObjectId)
    ensures
        final(state)@ == bearer_cleared(old(state)@, object_id),
{
    proof {
        reveal(bearer_cleared);
    }
    let ghost before = state@;
    let players = state.ring_bearer.keys();
    let mut changed: bool = false;
    let mut i: usize = 0;
    while i < players.len()
        invariant
            i <= players@.len(),
            before == old(state)@,
            forall|p: PlayerId|
                #[trigger] players@.contains(p) <==> before.ring_bearer.contains_key(p),
            state@ == (Game { ring_bearer: state@.ring_bearer, ..before }),
            changed == (exists|j: int|
                0 <= j < i && designated(before, #[trigger] players@[j]) == Some(object_id)),
            forall|p: PlayerId|
                #[trigger] at(state@.ring_bearer, p) == (if designated(before, p) == Some(object_id)
                    && (exists|j: int| 0 <= j < i && players@[j] == p) {
                    None
                } else {
                    at(before.ring_bearer, p)
                }),
        decreases players@.len() - i,
    {
        let player = players[i];
        let ghost prior = state@.ring_bearer;
        assert(at(prior, player) == at(state@.ring_bearer, player));
        if find_designated(state, player) == Some(object_id) {
            state.ring_bearer.remove(&player);
            changed = true;
            assert(designated(before, players@[i as int]) == Some(object_id));
        }
        i = i + 1;
        assert forall|p: PlayerId|
            #[trigger] at(state@.ring_bearer, p) == (if designated(before, p) == Some(object_id) && (
            exists|j: int| 0 <= j < i && players@[j] == p) {
                None
            } else {
                at(before.ring_bearer, p)
            }) by {
            assert(at(prior, p) == at(prior, p));
            assert(players@[i - 1] == player);
        }
    }
    proof {
        assert forall|p: PlayerId| designated(before, p) == Some(object_id) implies exists|j: int|
            0 <= j < players@.len() && players@[j] == p by {
            assert(players@.contains(p));
        }
        assert(state@.ring_bearer =~= bearer_cleared(before, object_id).ring_bearer) by {
            assert forall|p: PlayerId|
                at(state@.ring_bearer, p) == at(
                    bearer_cleared(before, object_id).ring_bearer,
                    p,
                ) by {}
            assert forall|p: PlayerId|
                state@.ring_bearer.contains_key(p) == bearer_cleared(
                    before,
                    object_id,
                ).ring_bearer.contains_key(p) by {
                assert(at(state@.ring_bearer, p) == at(
                    bearer_cleared(before, object_id).ring_bearer,
                    p,
                ));
            }
            assert forall|p: PlayerId| state@.ring_bearer.contains_key(p) implies state@.ring_bearer[p]
                == bearer_cleared(before, object_id).ring_bearer[p] by {
                assert(at(state@.ring_bearer, p) == at(
                    bearer_cleared(before, object_id).ring_bearer,
                    p,
                ));
            }
        }
    }
    if changed {
        state.layers_dirty = true;
    }
}

/// Whether a player's designation has lapsed.
pub open spec fn is_stale(g: Game, player: PlayerId) -> bool {
    designated(g, player) matches Some(id) && !can_bear(g, player, id)
}

pub open spec fn stale_players(g: Game) -> Set<PlayerId> {
    Set::new(|p: PlayerId| is_stale(g, p))
}

/// The game without the designations that have lapsed.
pub open spec fn bearers_normalized(g: Game) -> Game {
    Game {
        ring_bearer: without(g.ring_bearer, stale_players(g)),
        layers_dirty: g.layers_dirty || exists|p: PlayerId| is_stale(g, p),
        ..g
    }
}

/// Drops the designations that have lapsed, and says whether there were any.
pub fn normalize_ring_bearers(state: &mut GameState) -> (r: bool)
    ensures
        final(state)@ == bearers_normalized(old(state)@),
        r == exists|p: PlayerId| is_stale(old(state)@, p),
{
    let ghost before = state@;
    let players = state.ring_bearer.keys();
    let mut stale: Vec<PlayerId> = Vec::new();
    let mut i: usize = 0;
    while i < players.len()
        invariant
            i <= players@.len(),
            *state == *old(state),
            before == state@,
            forall|p: PlayerId|
                #[trigger] stale@.contains(p) <==> is_stale(before, p) && (exists|j: int|
                    0 <= j < i && players@[j] == p),
        decreases players@.len() - i,
    {
        let player = players[i];
        let ghost prior = stale@;
        let lapsed: bool = match find_designated(state, player) {
            None => false,
            Some(id) => !is_current_ring_bearer(state, player, id),
        };
        if lapsed {
            stale.push(player);
        }
        i = i + 1;
        assert forall|p: PlayerId|
            #[trigger] stale@.contains(p) <==> is_stale(before, p) && (exists|j: int|
                0 <= j < i && players@[j] == p) by {
            if lapsed {
                assert(stale@ == prior.push(player));
                assert(stale@[prior.len() as int] == player);
                if prior.contains(p) {
                    let k = choose|k: int| 0 <= k < prior.len() && prior[k] == p;
                    assert(stale@[k] == p);
                }
            }
            if p == player {
                assert(players@[i - 1] == p);
            } else {
                assert(prior.contains(p) <==> stale@.contains(p)) by {
                    if stale@.contains(p) {
                        let k = choose|k: int| 0 <= k < stale@.len() && stale@[k] == p;
                        assert(prior[k] == p);
                    }
                }
            }
        }
    }
    proof {
        assert forall|p: PlayerId| #[trigger] stale@.contains(p) <==> is_stale(before, p) by {
            if is_stale(before, p) {
                assert(players@.contains(p));
                let j = choose|j: int| 0 <= j < players@.len() && players@[j] == p;
                assert(players@[j] == p);
            }
        }
    }
    if stale.len() == 0 {
        proof {
            assert forall|p: PlayerId| !is_stale(before, p) by {
                assert(!stale@.contains(p));
            }
            assert(state@.ring_bearer =~= without(before.ring_bearer, stale_players(before)));
        }
        return false;
    }
    let mut k: usize = 0;
    while k < stale.len()
        invariant
            k <= stale@.len(),
            state@ == (Game { ring_bearer: state@.ring_bearer, ..before }),
            forall|p: PlayerId|
                #[trigger] at(state@.ring_bearer, p) == (if exists|j: int|
                    0 <= j < k && stale@[j] == p {
                    None
                } else {
                    at(before.ring_bearer, p)
                }),
        decreases stale@.len() - k,
    {
        let player = stale[k];
        let ghost prior = state@.ring_bearer;
        state.ring_bearer.remove(&player);
        k = k + 1;
        assert forall|p: PlayerId|
            #[trigger] at(state@.ring_bearer, p) == (if exists|j: int| 0 <= j < k && stale@[j] == p {
                None
            } else {
                at(before.ring_bearer, p)
            }) by {
            assert(at(prior, p) == at(prior, p));
            assert(stale@[k - 1] == player);
        }
    }
    proof {
        assert(is_stale(before, stale@[0])) by {
            assert(stale@.contains(stale@[0]));
        }
        let target = without(before.ring_bearer, stale_players(before));
        assert forall|p: PlayerId| at(state@.ring_bearer, p) == at(target, p) by {
            assert(stale@.contains(p) <==> is_stale(before, p));
        }
        assert forall|p: PlayerId|
            state@.ring_bearer.contains_key(p) == target.contains_key(p) by {
            assert(at(state@.ring_bearer, p) == at(target, p));
        }
        assert forall|p: PlayerId| state@.ring_bearer.contains_key(p) implies state@.ring_bearer[p]
            == target[p] by {
            assert(at(state@.ring_bearer, p) == at(target, p));
        }
        assert(state@.ring_bearer =~= target);
    }
    state.layers_dirty = true;
    true
}

proof fn lemma_candidates(g: Game, player: PlayerId, n: nat)
    ensures
        forall|i: int|
            0 <= i < ring_candidates(g, player, n).len() ==> can_bear(
                g,
                player,
                #[trigger] ring_candidates(g, player, n)[i],
            ),
    decreases n,
{
    if n > 0 {
        lemma_candidates(g, player, (n - 1) as nat);
        let before = ring_candidates(g, player, (n - 1) as nat);
        let now = ring_candidates(g, player, n);
        assert forall|i: int| 0 <= i < now.len() implies can_bear(
            g,
            player,
            #[trigger] now[i],
        ) by {
            if i < before.len() {
                assert(now[i] == before[i]);
            }
        }
    }
}

/// Each time the Ring tempts a player it goes up a level, to the fourth and no further, and no
/// other player's does. The bearer that it takes without a choice is a creature that the player
/// controls (CR 701.54a, CR 701.54c).
pub proof fn law_temptation(g: Game, player: PlayerId, other: PlayerId)
    requires
        ring_level_of(g, player) <= MAX_RING_LEVEL,
    ensures
        ring_level_of(g, player) <= ring_level_of(tempted(g, player), player) <= MAX_RING_LEVEL,
        ring_level_of(g, player) < MAX_RING_LEVEL ==> ring_level_of(tempted(g, player), player)
            == ring_level_of(g, player) + 1,
        other != player ==> ring_level_of(tempted(g, player), other) == ring_level_of(g, other),
        other != player ==> designated(tempted(g, player), other) == designated(g, other),
        designated(tempted(g, player), player) != designated(g, player) ==> bearer_of(
            tempted(g, player),
            player,
        ) is Some,
{
    let n = g.battlefield.len();
    lemma_candidates(g, player, n);
    let candidates = ring_candidates(g, player, n);
    if candidates.len() == 1 {
        assert(can_bear(g, player, candidates[0]));
        assert(can_bear(tempted(g, player), player, candidates[0]));
    }
}

/// What bears a player's Ring is a creature that the player controls on the battlefield, and it
/// is the one that was designated (CR 701.54e).
pub proof fn law_bearer(g: Game, player: PlayerId, id: ObjectId)
    ensures
        bearer_of(g, player) == Some(id) <==> is_bearer(g, player, id),
        is_bearer(g, player, id) ==> can_bear(g, player, id) && designated(g, player) == Some(id),
{
}

/// Dropping the designations that have lapsed changes no player's bearer and leaves none that has
/// lapsed, so that dropping them again changes nothing.
pub proof fn law_normalized(g: Game, player: PlayerId)
    ensures
        bearer_of(bearers_normalized(g), player) == bearer_of(g, player),
        !is_stale(bearers_normalized(g), player),
        bearers_normalized(bearers_normalized(g)) == bearers_normalized(g),
{
    let once = bearers_normalized(g);
    assert forall|p: PlayerId| !is_stale(once, p) by {
        assert(designated(once, p) == if is_stale(g, p) {
            None
        } else {
            designated(g, p)
        });
    }
    assert(without(once.ring_bearer, stale_players(once)) =~= once.ring_bearer);
}

/// An object that no longer bears any Ring is nobody's bearer, and no other bearer is lost.
pub proof fn law_cleared(g: Game, id: ObjectId, player: PlayerId)
    ensures
        designated(bearer_cleared(g, id), player) != Some(id),
        designated(g, player) != Some(id) ==> designated(bearer_cleared(g, id), player)
            == designated(g, player),
{
    reveal(bearer_cleared);
}

proof fn lemma_candidates_filtered(
    g: Game,
    player: PlayerId,
    n: nat,
    test: spec_fn(ObjectId) -> bool,
)
    requires
        n <= g.battlefield.len(),
        forall|id: ObjectId| #[trigger] test(id) == can_bear(g, player, id),
    ensures
        ring_candidates(g, player, n) == g.battlefield.take(n as int).filter(test),
    decreases n,
{
    reveal(Seq::filter);
    if n > 0 {
        lemma_candidates_filtered(g, player, (n - 1) as nat, test);
        assert(g.battlefield.take(n as int).drop_last() =~= g.battlefield.take(n - 1));
    } else {
        assert(g.battlefield.take(0).filter(test) =~= seq![]);
    }
}

/// What is offered when the Ring tempts a player are the objects on the battlefield, in their
/// order, that are in that zone, that the player controls and whose card types say creature: one
/// such object becomes the bearer, of several the player chooses, and where there is none nothing
/// is designated (CR 701.54a).
pub proof fn law_offered(g: Game, player: PlayerId)
    ensures
        ({
            let creatures = g.battlefield.filter(
                |id: ObjectId|
                    g.objects.contains_key(id) && g.objects[id].zone == Zone::Battlefield
                        && g.objects[id].controller == player
                        && g.objects[id].card_types.core_types@.contains(CoreType::Creature),
            );
            let after = tempted(g, player);
            &&& creatures.len() == 0 ==> after.ring_bearer == g.ring_bearer && after.waiting_for
                == g.waiting_for && after.layers_dirty == g.layers_dirty
            &&& creatures.len() == 1 ==> after.ring_bearer == g.ring_bearer.insert(
                player,
                Some(creatures[0]),
            ) && after.waiting_for == g.waiting_for && after.layers_dirty
            &&& creatures.len() >= 2 ==> after.ring_bearer == g.ring_bearer && (
            after.waiting_for matches WaitingFor::ChooseRingBearer { player: chooser, candidates }
                && chooser == player && candidates@ == creatures) && after.layers_dirty
                == g.layers_dirty
        }),
{
    let test = |id: ObjectId|
        g.objects.contains_key(id) && g.objects[id].zone == Zone::Battlefield
            && g.objects[id].controller == player
            && g.objects[id].card_types.core_types@.contains(CoreType::Creature);
    let n = g.battlefield.len();
    lemma_candidates_filtered(g, player, n, test);
    assert(g.battlefield.take(n as int) =~= g.battlefield);
    let candidates = ring_candidates(g, player, n);
    crate::list::lemma_items_of(candidates);
}

/// Every candidate that a tempted player is offered, and every bearer that is newly designated,
/// is an object on the battlefield that the player controls and whose card types say creature;
/// and every such permanent is a candidate, or the bearer where it is the only one.
pub proof fn law_candidates(g: Game, player: PlayerId, id: ObjectId)
    requires
        !(g.waiting_for is ChooseRingBearer),
        !(g.ring_bearer.contains_key(player) && g.ring_bearer[player] == Some(id)),
    ensures
        ({
            let after = tempted(g, player);
            let offered = after.waiting_for matches WaitingFor::ChooseRingBearer {
                candidates,
                ..
            } && candidates@.contains(id);
            let bears = after.ring_bearer.contains_key(player) && after.ring_bearer[player]
                == Some(id);
            (offered || bears) <==> (g.battlefield.contains(id) && g.objects.contains_key(id)
                && g.objects[id].zone == Zone::Battlefield && g.objects[id].controller == player
                && g.objects[id].card_types.core_types@.contains(CoreType::Creature))
        }),
{
    let n = g.battlefield.len();
    let candidates = ring_candidates(g, player, n);
    lemma_candidates(g, player, n);
    lemma_candidates_all(g, player, n, id);
    crate::list::lemma_items_of(candidates);
    assert(g.battlefield.take(n as int) =~= g.battlefield);
    if candidates.len() == 1 {
        assert(candidates.contains(id) <==> candidates[0] == id) by {
            if candidates[0] == id {
                assert(candidates.contains(id));
            }
        }
    }
}

proof fn lemma_candidates_all(g: Game, player: PlayerId, n: nat, id: ObjectId)
    requires
        n <= g.battlefield.len(),
    ensures
        ring_candidates(g, player, n).contains(id) <==> g.battlefield.take(n as int).contains(id)
            && can_bear(g, player, id),
    decreases n,
{
    if n > 0 {
        lemma_candidates_all(g, player, (n - 1) as nat, id);
        lemma_candidates(g, player, n);
        let before = ring_candidates(g, player, (n - 1) as nat);
        let now = ring_candidates(g, player, n);
        let less = g.battlefield.take(n - 1);
        let part = g.battlefield.take(n as int);
        assert(part =~= less.push(g.battlefield[n - 1]));
        if less.contains(id) {
            let i = choose|i: int| 0 <= i < less.len() && less[i] == id;
            assert(part[i] == id);
        }
        if before.contains(id) {
            let i = choose|i: int| 0 <= i < before.len() && before[i] == id;
            assert(now[i] == id);
        }
        if g.battlefield[n - 1] == id {
            assert(part[n - 1] == id);
            if can_bear(g, player, id) {
                assert(now[before.len() as int] == id);
            }
        }
        if now.contains(id) {
            let i = choose|i: int| 0 <= i < now.len() && now[i] == id;
            if i < before.len() {
                assert(before[i] == id);
            }
        }
    }
}

/// The Ring's level goes from none to the first, from there to the second, the third and the
/// fourth, and stays there. Nobody else's level changes, nor does anything else of the game but
/// the bearer and what is waited for (CR 701.54c).
pub proof fn law_ring_levels(g: Game, player: PlayerId)
    ensures
        ({
            let after = tempted(g, player);
            &&& after.ring_level.contains_key(player)
            &&& !g.ring_level.contains_key(player) ==> after.ring_level[player] == 1
            &&& g.ring_level.contains_key(player) && g.ring_level[player] < 4
                ==> after.ring_level[player] == g.ring_level[player] + 1
            &&& g.ring_level.contains_key(player) && g.ring_level[player] >= 4
                ==> after.ring_level[player] == g.ring_level[player]
            &&& forall|other: PlayerId|
                other != player ==> (#[trigger] after.ring_level.contains_key(other)
                    <==> g.ring_level.contains_key(other))
            &&& forall|other: PlayerId|
                other != player && g.ring_level.contains_key(other)
                    ==> #[trigger] after.ring_level[other] == g.ring_level[other]
            &&& after == (Game {
                ring_level: after.ring_level,
                ring_bearer: after.ring_bearer,
                waiting_for: after.waiting_for,
                layers_dirty: after.layers_dirty,
                ..g
            })
        }),
{
}

/// A player's bearer is the object that was designated, as long as it is a creature on the
/// battlefield that the player controls, and otherwise there is none (CR 701.54e).
pub proof fn law_bearer_is_creature(g: Game, player: PlayerId, id: ObjectId)
    ensures
        bearer_of(g, player) == Some(id) <==> (g.ring_bearer.contains_key(player)
            && g.ring_bearer[player] == Some(id) && g.objects.contains_key(id)
            && g.objects[id].zone == Zone::Battlefield && g.objects[id].controller == player
            && g.objects[id].card_types.core_types@.contains(CoreType::Creature)),
        is_bearer(g, player, id) <==> bearer_of(g, player) == Some(id),
{
}

/// Dropping lapsed designations drops those of objects that are no creature on the battlefield
/// under the player's control, and no other; continuous effects are to be applied anew exactly
/// when something was dropped, or when that was due anyway.
pub proof fn law_lapsed(g: Game, player: PlayerId, id: ObjectId)
    requires
        g.ring_bearer.contains_key(player),
        g.ring_bearer[player] == Some(id),
    ensures
        ({
            let after = bearers_normalized(g);
            let bears = g.objects.contains_key(id) && g.objects[id].zone == Zone::Battlefield
                && g.objects[id].controller == player
                && g.objects[id].card_types.core_types@.contains(CoreType::Creature);
            &&& bears ==> after.ring_bearer.contains_key(player) && after.ring_bearer[player]
                == Some(id)
            &&& !bears ==> !after.ring_bearer.contains_key(player) && after.layers_dirty
            &&& after == (Game {
                ring_bearer: after.ring_bearer,
                layers_dirty: after.layers_dirty,
                ..g
            })
        }),
{
    assert(is_stale(g, player) <==> stale_players(g).contains(player));
}

/// Clearing an object as a bearer takes away the designations that name it, and no other.
pub proof fn law_cleared_bearer(g: Game, id: ObjectId, player: PlayerId)
    ensures
        ({
            let after = bearer_cleared(g, id);
            let named = g.ring_bearer.contains_key(player) && g.ring_bearer[player] == Some(id);
            &&& named ==> !after.ring_bearer.contains_key(player) && after.layers_dirty
            &&& !named ==> (after.ring_bearer.contains_key(player) <==> g.ring_bearer.contains_key(
                player,
            ))
            &&& !named && g.ring_bearer.contains_key(player) ==> after.ring_bearer[player]
                == g.ring_bearer[player]
            &&& after == (Game {
                ring_bearer: after.ring_bearer,
                layers_dirty: after.layers_dirty,
                ..g
            })
        }),
{
    reveal(bearer_cleared);
    assert(bearing(g, id).contains(player) <==> designated(g, player) == Some(id));
}

} // verus!
