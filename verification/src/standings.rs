//! What a client shows of the players of a game: the winner, the final
//! standings, and the order of the player cards during play.
use vstd::prelude::*;

use crate::board::{Player, PlayerID};
use crate::game::Game;
use crate::game_model::{alive_count, alive_count_upto, first_alive_any_from, GameView};

verus! {

/// The winner of `g`: its only player still in play, if exactly one is.
pub open spec fn sole_survivor(g: GameView) -> Option<PlayerID> {
    if alive_count(g.players) == 1 {
        Some(g.players[first_alive_any_from(g.players, 0)].id)
    } else {
        None
    }
}

/// The player in seat `i` of `g` ranks above the one in seat `j`: players
/// still in play first, then players with statistics, then more turns
/// survived, then a longer path.
pub open spec fn ranks_before(g: GameView, i: int, j: int) -> bool {
    let a = g.players[i];
    let b = g.players[j];
    let ha = g.stats.contains_key(a.id);
    let hb = g.stats.contains_key(b.id);
    if a.alive != b.alive {
        a.alive
    } else if ha != hb {
        ha
    } else if !ha {
        false
    } else if g.stats[a.id].turns_survived != g.stats[b.id].turns_survived {
        g.stats[a.id].turns_survived > g.stats[b.id].turns_survived
    } else {
        g.stats[a.id].path_length > g.stats[b.id].path_length
    }
}

/// Seat `i` comes before seat `j` in the final standings: it ranks above,
/// or ranks level and sits earlier.
pub open spec fn stands_before(g: GameView, i: int, j: int) -> bool {
    ranks_before(g, i, j) || (!ranks_before(g, j, i) && i < j)
}

/// `s` lists every seat of `g` once, in the order of the final standings.
pub open spec fn is_standings(g: GameView, s: Seq<usize>) -> bool {
    &&& s.len() == g.players.len()
    &&& s.no_duplicates()
    &&& forall|a: int| 0 <= a < s.len() ==> s[a] < g.players.len()
    &&& forall|a: int, b: int| 0 <= a < b < s.len() ==> stands_before(g, s[a] as int, s[b] as int)
}

/// The seats among the first `n` of `players` whose player is (or is not,
/// for `alive` false) still in play, in seat order.
pub open spec fn seats_where(players: Seq<Player>, alive: bool, n: int) -> Seq<usize>
    decreases n,
{
    if n <= 0 {
        Seq::empty()
    } else if players[n - 1].alive == alive {
        seats_where(players, alive, n - 1).push((n - 1) as usize)
    } else {
        seats_where(players, alive, n - 1)
    }
}

/// The standings order is transitive.
pub proof fn lemma_stands_before_transitive(g: GameView, i: int, j: int, k: int)
    requires
        stands_before(g, i, j),
        stands_before(g, j, k),
    ensures
        stands_before(g, i, k),
{
}

/// Of two different seats, one stands before the other, and no seat stands
/// before itself.
pub proof fn lemma_stands_before_total(g: GameView, i: int, j: int)
    ensures
        i != j ==> stands_before(g, i, j) || stands_before(g, j, i),
        !stands_before(g, i, i),
        !(stands_before(g, i, j) && stands_before(g, j, i)),
{
}

/// The winner of `game`: its only player still in play, if exactly one is.
pub fn winner(game: &Game) -> (r: Option<PlayerID>)
    ensures
        r == sole_survivor(game@),
{
    let ghost ps = game@.players;
    let n = game.players.len();
    let mut count: usize = 0;
    let mut first: usize = n;
    let mut i: usize = 0;
    while i < n
        invariant
            n == ps.len(),
            ps == game@.players,
            i <= n,
            count == alive_count_upto(ps, i as int),
            count <= i,
            count == 0 ==> first_alive_any_from(ps, 0) == first_alive_any_from(ps, i as int),
            count > 0 ==> first < i && first == first_alive_any_from(ps, 0),
        decreases n - i,
    {
        if game.players[i].alive {
            if count == 0 {
                first = i;
            }
            count = count + 1;
        }
        i = i + 1;
    }
    if count == 1 {
        Some(game.players[first].id)
    } else {
        None
    }
}

/// Seat `i` of `game` ranks above seat `j` (see [`ranks_before`]).
fn ranks_above(game: &Game, i: usize, j: usize) -> (r: bool)
    requires
        i < game@.players.len(),
        j < game@.players.len(),
    ensures
        r == ranks_before(game@, i as int, j as int),
{
    let a = game.players[i];
    let b = game.players[j];
    if a.alive != b.alive {
        return a.alive;
    }
    match (game.stats.get(&a.id), game.stats.get(&b.id)) {
        (Some(sa), Some(sb)) => if sa.turns_survived != sb.turns_survived {
            sa.turns_survived > sb.turns_survived
        } else {
            sa.path_length > sb.path_length
        },
        (Some(_), None) => true,
        (None, Some(_)) => false,
        (None, None) => false,
    }
}

/// The seats of `game` in the order of the final standings: players still
/// in play first, then by turns survived and path length, both longest
/// first; players who rank level keep their seat order (see
/// [`is_standings`]).
pub fn standings(game: &Game) -> (r: Vec<usize>)
    ensures
        is_standings(game@, r@),
{
    let ghost g = game@;
    let n = game.players.len();
    let mut order: Vec<usize> = Vec::new();
    let mut i: usize = 0;
    while i < n
        invariant
            g == game@,
            n == g.players.len(),
            i <= n,
            order@.len() == i,
            order@.no_duplicates(),
            forall|a: int| 0 <= a < order@.len() ==> order@[a] < i,
            forall|a: int, b: int|
                0 <= a < b < order@.len() ==> stands_before(g, order@[a] as int, order@[b] as int),
        decreases n - i,
    {
        let mut p: usize = 0;
        while p < order.len() && !ranks_above(game, i, order[p])
            invariant
                g == game@,
                n == g.players.len(),
                i < n,
                p <= order@.len(),
                forall|a: int| 0 <= a < order@.len() ==> order@[a] < i,
                forall|a: int| 0 <= a < p ==> !ranks_before(g, i as int, #[trigger] order@[a] as int),
            decreases order@.len() - p,
        {
            p = p + 1;
        }
        let ghost s = order@;
        order.insert(p, i);
        proof {
            s.insert_ensures(p as int, i);
            // Seats before `p` stand before `i`; `i` stands before the rest.
            assert forall|a: int| 0 <= a < p implies stands_before(g, #[trigger] s[a] as int, i as int) by {
                lemma_stands_before_total(g, s[a] as int, i as int);
            }
            assert forall|b: int| p <= b < s.len() implies stands_before(g, i as int, #[trigger] s[b] as int) by {
                assert(ranks_before(g, i as int, s[p as int] as int));
                if b > p {
                    assert(stands_before(g, s[p as int] as int, s[b] as int));
                    lemma_stands_before_transitive(g, i as int, s[p as int] as int, s[b] as int);
                }
            }
            let t = order@;
            assert forall|a: int, b: int| 0 <= a < b < t.len() implies stands_before(g, t[a] as int, t[b] as int) by {
                if b < p {
                    assert(t[a] == s[a] && t[b] == s[b]);
                } else if b == p {
                    assert(t[a] == s[a]);
                } else if a < p {
                    assert(t[a] == s[a] && t[b] == s[b - 1]);
                    lemma_stands_before_transitive(g, s[a] as int, i as int, s[b - 1] as int);
                } else if a == p {
                    assert(t[b] == s[b - 1]);
                } else {
                    assert(t[a] == s[a - 1] && t[b] == s[b - 1]);
                }
            }
            assert(t.no_duplicates()) by {
                assert forall|a: int, b: int| 0 <= a < t.len() && 0 <= b < t.len() && a != b implies t[a] != t[b] by {
                    if a < b {
                        lemma_stands_before_total(g, t[a] as int, t[b] as int);
                    } else {
                        lemma_stands_before_total(g, t[b] as int, t[a] as int);
                    }
                }
            }
        }
        i = i + 1;
    }
    order
}

/// The seats of `game` with the players still in play first, each group in
/// seat order: the order of the player cards during play.
pub fn in_play_first(game: &Game) -> (r: Vec<usize>)
    ensures
        r@ == seats_where(game@.players, true, game@.players.len() as int) + seats_where(
            game@.players,
            false,
            game@.players.len() as int,
        ),
{
    let ghost ps = game@.players;
    let n = game.players.len();
    let mut alive: Vec<usize> = Vec::new();
    let mut out: Vec<usize> = Vec::new();
    let mut i: usize = 0;
    while i < n
        invariant
            ps == game@.players,
            n == ps.len(),
            i <= n,
            alive@ == seats_where(ps, true, i as int),
            out@ == seats_where(ps, false, i as int),
        decreases n - i,
    {
        if game.players[i].alive {
            alive.push(i);
        } else {
            out.push(i);
        }
        i = i + 1;
    }
    let mut j: usize = 0;
    let ghost a0 = alive@;
    while j < out.len()
        invariant
            out@ == seats_where(ps, false, n as int),
            j <= out@.len(),
            alive@ == a0 + out@.take(j as int),
        decreases out@.len() - j,
    {
        alive.push(out[j]);
        proof {
            assert(out@.take(j + 1) == out@.take(j as int).push(out@[j as int]));
        }
        j = j + 1;
    }
    assert(out@.take(out@.len() as int) =~= out@);
    alive
}

} // verus!
