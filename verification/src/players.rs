//! Who is still in the game, and who comes next.

use crate::ids::PlayerId;
use crate::object::Player;
use crate::state::{Game, GameState};
use vstd::prelude::*;

verus! {

/// Whether a player is in the game and has not left it.
pub open spec fn alive(g: Game, player: PlayerId) -> bool {
    exists|i: int|
        0 <= i < g.players.len() && (#[trigger] g.players[i]).id == player
            && !g.players[i].is_eliminated
}

pub fn is_alive(state: &GameState, player: PlayerId) -> (r: bool)
    ensures
        r == alive(state@, player),
{
    let mut i: usize = 0;
    while i < state.players.len()
        invariant
            i <= state.players@.len(),
            forall|j: int|
                0 <= j < i ==> !((#[trigger] state@.players[j]).id == player
                    && !state@.players[j].is_eliminated),
        decreases state.players@.len() - i,
    {
        if state.players[i].id == player && !state.players[i].is_eliminated {
            assert(state@.players[i as int].id == player);
            return true;
        }
        i = i + 1;
    }
    false
}

/// The first living player, going round the table, behind `k` seats past `seat`; or `fallback`
/// after a whole round.
pub open spec fn next_alive(
    players: Seq<Player>,
    seat: nat,
    k: nat,
    fallback: PlayerId,
) -> PlayerId
    decreases players.len() + 1 - k,
{
    if k > players.len() || players.len() == 0 {
        fallback
    } else {
        let p = players[(seat + k) as int % players.len() as int];
        if !p.is_eliminated {
            p.id
        } else {
            next_alive(players, seat, k + 1, fallback)
        }
    }
}

/// The next living player in turn order.
pub open spec fn player_after(g: Game, player: PlayerId) -> PlayerId {
    next_alive(g.players, g.seat(player), 1, player)
}

/// The next living player in turn order is alive, where anyone is.
pub proof fn law_player_after(g: Game, player: PlayerId)
    requires
        exists|p: PlayerId| alive(g, p),
    ensures
        alive(g, player_after(g, player)),
{
    let p = choose|p: PlayerId| alive(g, p);
    let i = choose|i: int|
        0 <= i < g.players.len() && (#[trigger] g.players[i]).id == p && !g.players[i].is_eliminated;
    let n = g.players.len() as int;
    let seat = g.seat(player);
    crate::state::lemma_first_seat(g.players, player, 0);
    // Some step of the round reaches the living player's seat.
    let k: int = if i > seat {
        i - seat
    } else {
        i - seat + n
    };
    if seat < n {
        assert((i + n) % n == i && i % n == i) by (nonlinear_arith)
            requires
                0 <= i < n,
        ;
        lemma_next_alive(g, seat, 1, player, k as nat);
    } else if i > 0 {
        assert((n + i) % n == i) by (nonlinear_arith)
            requires
                0 <= i < n,
        ;
        lemma_next_alive(g, seat, 1, player, i as nat);
    } else {
        assert((n + n) % n == 0) by (nonlinear_arith)
            requires
                0 < n,
        ;
        lemma_next_alive(g, seat, 1, player, n as nat);
    }
}

proof fn lemma_next_alive(g: Game, seat: nat, k: nat, fallback: PlayerId, goal: nat)
    requires
        1 <= k <= goal <= g.players.len(),
        !g.players[(seat + goal) as int % g.players.len() as int].is_eliminated,
    ensures
        alive(g, next_alive(g.players, seat, k, fallback)),
    decreases goal - k,
{
    let at = (seat + k) as int % g.players.len() as int;
    assert(0 <= at < g.players.len()) by (nonlinear_arith)
        requires
            at == (seat + k) as int % g.players.len() as int,
            g.players.len() > 0,
    ;
    if g.players[at].is_eliminated {
        lemma_next_alive(g, seat, k + 1, fallback, goal);
    } else {
        assert(g.players[at].id == next_alive(g.players, seat, k, fallback));
    }
}

pub fn next_player(state: &GameState, player: PlayerId) -> (r: PlayerId)
    ensures
        r == player_after(state@, player),
{
    let n: usize = state.players.len();
    let mut seat: usize = state.find_seat(player);
    if n == 0 {
        return player;
    }
    let ghost first = seat;
    let mut k: usize = 0;
    while k < n
        invariant
            n == state.players@.len(),
            n > 0,
            k <= n,
            seat <= n,
            seat % n == (first + k) as int % (n as int),
            player_after(state@, player) == next_alive(
                state@.players,
                first as nat,
                (k + 1) as nat,
                player,
            ),
        decreases n - k,
    {
        let at: usize = if seat >= n {
            seat - n
        } else {
            seat
        };
        let next: usize = if at + 1 == n {
            0
        } else {
            at + 1
        };
        proof {
            assert(at == (first + k) as int % (n as int)) by (nonlinear_arith)
                requires
                    n > 0,
                    seat <= n,
                    at == (if seat >= n { seat - n } else { seat as int }),
                    seat as int % (n as int) == (first + k) as int % (n as int),
            ;
            assert(next == (first + k + 1) as int % (n as int)) by (nonlinear_arith)
                requires
                    n > 0,
                    at < n,
                    at == (first + k) as int % (n as int),
                    next == (if at + 1 == n { 0 } else { at + 1 }),
            ;
            assert(next as int % (n as int) == next) by (nonlinear_arith)
                requires
                    0 <= next < n,
            ;
        }
        if !state.players[next].is_eliminated {
            return state.players[next].id;
        }
        seat = next;
        k = k + 1;
    }
    player
}

/// Whether a player sits on the same team as another: teams are pairs of neighbours.
pub open spec fn is_teammate(player: PlayerId, other: PlayerId) -> bool {
    other != player && other.0 / 2 == player.0 / 2
}

/// The teammates among the first `n` players.
pub open spec fn teammates_of(g: Game, player: PlayerId, n: nat) -> Seq<PlayerId>
    decreases n,
{
    if n == 0 {
        seq![]
    } else {
        let before = teammates_of(g, player, (n - 1) as nat);
        if is_teammate(player, g.players[n - 1].id) {
            before.push(g.players[n - 1].id)
        } else {
            before
        }
    }
}

pub fn teammates(state: &GameState, player: PlayerId) -> (r: Vec<PlayerId>)
    ensures
        r@ == teammates_of(state@, player, state@.players.len()),
{
    let mut out: Vec<PlayerId> = Vec::new();
    let mut i: usize = 0;
    while i < state.players.len()
        invariant
            i <= state.players@.len(),
            out@ == teammates_of(state@, player, i as nat),
        decreases state.players@.len() - i,
    {
        let other = state.players[i].id;
        if other != player && other.0 / 2 == player.0 / 2 {
            out.push(other);
        }
        i = i + 1;
    }
    out
}

} // verus!
